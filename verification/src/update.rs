//! Updates: immutable descriptions of one accepted mutation, fanned out to
//! every live session of every user with access to the touched entity.

use vstd::prelude::*;

use crate::objects::{InviteData, InviteView, Message, MessageView, UserData, UserDataView};
use crate::sheet::{Cell, CellView};
use crate::objects::{Element, ElementView, File, FileView};
use crate::types::{EntityId, IndexInEntity, Revision, SheetId, UserId};

verus! {

/// What kind of mutation an update describes.
#[derive(Copy, Clone, Debug, PartialEq, Eq, Structural)]
pub enum UpdateType {
    SetUser,
    NewInvite,
    NewGuest,
    ByeGuest,
    NewFriend,
    NewMessage,
    SetMessage,
    SetCell,
    SetElement,
    NewElement,
    ByeElement,
    NewFile,
    SetFile,
    ByeFile,
}

/// The mutation-specific payload of an update, one closed variant per call
/// site.
pub enum UpdateData {
    Nothing,
    Actor(UserId),
    Post(Message),
    CellValue(Cell),
    Item(Element),
    Blob(File),
    Profile(UserData),
    Grant(InviteData),
}

/// Mathematical image of an update payload.
#[verifier::ext_equal]
pub ghost enum UpdateDataView {
    Nothing,
    Actor(UserId),
    Post(MessageView),
    CellValue(CellView),
    Item(ElementView),
    Blob(FileView),
    Profile(UserDataView),
    Grant(InviteView),
}

impl View for UpdateData {
    type V = UpdateDataView;

    open spec fn view(&self) -> UpdateDataView {
        match self {
            UpdateData::Nothing => UpdateDataView::Nothing,
            UpdateData::Actor(u) => UpdateDataView::Actor(*u),
            UpdateData::Post(m) => UpdateDataView::Post(m@),
            UpdateData::CellValue(c) => UpdateDataView::CellValue(c@),
            UpdateData::Item(e) => UpdateDataView::Item(e@),
            UpdateData::Blob(f) => UpdateDataView::Blob(f@),
            UpdateData::Profile(p) => UpdateDataView::Profile(p@),
            UpdateData::Grant(i) => UpdateDataView::Grant(i@),
        }
    }
}

/// One accepted mutation: its kind, target, the revision it produced, the
/// position it touched, and the mutation-specific payload.
pub struct Update {
    pub update_type: UpdateType,
    pub id: EntityId,
    pub new_revision: Revision,
    pub index: IndexInEntity,
    pub data: UpdateData,
}

/// Mathematical image of an update.
#[verifier::ext_equal]
pub ghost struct UpdateView {
    pub update_type: UpdateType,
    pub id: EntityId,
    pub new_revision: Revision,
    pub index: IndexInEntity,
    pub data: UpdateDataView,
}

impl View for Update {
    type V = UpdateView;

    open spec fn view(&self) -> UpdateView {
        UpdateView {
            update_type: self.update_type,
            id: self.id,
            new_revision: self.new_revision,
            index: self.index,
            data: self.data@,
        }
    }
}

impl Update {
    /// Builds an update from its parts.
    pub fn new(
        update_type: UpdateType,
        id: EntityId,
        rev: Revision,
        index: IndexInEntity,
        data: UpdateData,
    ) -> (r: Self)
        ensures
            r@ == (UpdateView {
                update_type,
                id,
                new_revision: rev,
                index,
                data: data@,
            }),
    {
        Update { update_type, id, new_revision: rev, index, data }
    }

    /// Describes a changed public profile.
    pub fn user(user_id: UserId, rev: Revision, data: UserData) -> (r: Self)
        ensures
            r@ == (UpdateView {
                update_type: UpdateType::SetUser,
                id: EntityId::User(user_id),
                new_revision: rev,
                index: 0,
                data: UpdateDataView::Profile(data@),
            }),
    {
        Self::new(UpdateType::SetUser, EntityId::User(user_id), rev, 0, UpdateData::Profile(data))
    }

    /// Describes a new reciprocal friendship, addressed to the sender.
    pub fn friend(sender_id: UserId, receiver_id: UserId) -> (r: Self)
        ensures
            r@ == (UpdateView {
                update_type: UpdateType::NewFriend,
                id: EntityId::User(sender_id),
                new_revision: 0,
                index: receiver_id as u64,
                data: UpdateDataView::Nothing,
            }),
    {
        let rcv = receiver_id as u64;
        Self::new(UpdateType::NewFriend, EntityId::User(sender_id), 0, rcv, UpdateData::Nothing)
    }

    /// Describes a set cell.
    pub fn cell(sheet_id: SheetId, rev: Revision, index: IndexInEntity, data: Cell) -> (r: Self)
        ensures
            r@ == (UpdateView {
                update_type: UpdateType::SetCell,
                id: EntityId::Spreadsheet(sheet_id),
                new_revision: rev,
                index,
                data: UpdateDataView::CellValue(data@),
            }),
    {
        Self::new(
            UpdateType::SetCell,
            EntityId::Spreadsheet(sheet_id),
            rev,
            index,
            UpdateData::CellValue(data),
        )
    }
}

} // verus!
