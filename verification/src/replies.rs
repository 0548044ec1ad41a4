//! Outbound replies: one success payload per operation kind, or the textual
//! failure reason.

use vstd::prelude::*;

use crate::cloning::seq_view;
use crate::entities::{EntityData, EntityDataView};
use crate::objects::{Element, ElementView, File, FileView, Message, MessageView, UserData,
    UserDataView, AssociatedImage, ImageView};
use crate::sheet::{Cell, CellView};
use crate::types::{EntityId, IndexInEntity, Revision, Token, UserId};
use crate::user::{SecretUserData, SecretView};

verus! {

/// One reply: the request's sequence number and the payload.
#[derive(Debug)]
pub struct Reply {
    pub num: usize,
    pub data: ReplyData,
}

/// Mathematical image of a reply.
#[verifier::ext_equal]
pub ghost struct ReplyView {
    pub num: usize,
    pub data: ReplyDataView,
}

impl View for Reply {
    type V = ReplyView;

    open spec fn view(&self) -> ReplyView {
        ReplyView { num: self.num, data: self.data@ }
    }
}

/// The payload of one reply.
#[derive(Debug)]
pub enum ReplyData {
    AuthenticationToken(Token),
    ValidUsername(UserId),
    UserData(Revision, UserData, AssociatedImage),
    SelfData(Revision, UserData, Vec<(EntityId, EntityData)>, SecretUserData),
    EntityCreated(EntityId),
    Messages(Revision, IndexInEntity, Vec<Message>),
    Spreadsheet(Revision, Vec<(IndexInEntity, Cell)>),
    Document(Revision, Vec<Element>),
    Bucket(Revision, Vec<File>),
    GenericSuccess,
    GenericFailure(String),
}

/// Mathematical image of a reply payload.
#[verifier::ext_equal]
pub ghost enum ReplyDataView {
    AuthenticationToken(Seq<char>),
    ValidUsername(UserId),
    UserData(Revision, UserDataView, ImageView),
    SelfData(Revision, UserDataView, Seq<(EntityId, EntityDataView)>, SecretView),
    EntityCreated(EntityId),
    Messages(Revision, IndexInEntity, Seq<MessageView>),
    Spreadsheet(Revision, Seq<(IndexInEntity, CellView)>),
    Document(Revision, Seq<ElementView>),
    Bucket(Revision, Seq<FileView>),
    GenericSuccess,
    GenericFailure(Seq<char>),
}

impl View for ReplyData {
    type V = ReplyDataView;

    open spec fn view(&self) -> ReplyDataView {
        match self {
            ReplyData::AuthenticationToken(t) => ReplyDataView::AuthenticationToken(t@),
            ReplyData::ValidUsername(u) => ReplyDataView::ValidUsername(*u),
            ReplyData::UserData(rev, d, img) => ReplyDataView::UserData(*rev, d@, img@),
            ReplyData::SelfData(rev, d, ents, secret) => ReplyDataView::SelfData(
                *rev,
                d@,
                ents@.map_values(|p: (EntityId, EntityData)| (p.0, p.1@)),
                secret@,
            ),
            ReplyData::EntityCreated(id) => ReplyDataView::EntityCreated(*id),
            ReplyData::Messages(rev, start, msgs) => ReplyDataView::Messages(
                *rev,
                *start,
                seq_view(msgs@),
            ),
            ReplyData::Spreadsheet(rev, cells) => ReplyDataView::Spreadsheet(
                *rev,
                cells@.map_values(|p: (IndexInEntity, Cell)| (p.0, p.1@)),
            ),
            ReplyData::Document(rev, elements) => ReplyDataView::Document(
                *rev,
                seq_view(elements@),
            ),
            ReplyData::Bucket(rev, files) => ReplyDataView::Bucket(*rev, seq_view(files@)),
            ReplyData::GenericSuccess => ReplyDataView::GenericSuccess,
            ReplyData::GenericFailure(s) => ReplyDataView::GenericFailure(s@),
        }
    }
}

impl Reply {
    /// Builds a reply from its parts.
    pub fn new(num: usize, data: ReplyData) -> (r: Self)
        ensures
            r == (Reply { num, data }),
            r@ == (ReplyView { num, data: data@ }),
    {
        Reply { num, data }
    }
}

/// One entry of an entity history; histories are not served.
pub struct Change;

} // verus!
