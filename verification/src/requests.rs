//! Decoded inbound requests: one operation kind with its arguments. Byte
//! parsing is the transport layer's work; the store only sees these.

use vstd::prelude::*;

use crate::objects::{Element, UserData};
use crate::sheet::Cell;
use crate::types::{BucketId, ConversationId, DocumentId, Email, EntityId, EntityTag,
    IndexInEntity, Revision, SheetId, Token, UserId, Username};

verus! {

pub type ReadOnly = bool;

pub type Discard = bool;

pub type EntityType = String;

pub type Code = String;

pub type Invite = usize;

/// One inbound request: its sequence number and its operation.
pub struct Request {
    pub num: usize,
    pub data: RequestData,
}

/// Every operation a session can ask for.
pub enum RequestData {
    SendChallenge(Email, ChallengeTarget),
    CompleteChallenge(Code),
    CreateAccount(Username, String),
    GetToken(UserId, String),
    OpenSession(UserId, Token),
    LoadUserData(Option<UserId>),
    SetUserData(Revision, UserData),
    OpenInvite(Revision, Invite, Discard),
    WhoIs(Username),
    CreateEntity(EntityType, String),
    ServerShutdown,
    LoadHistory(EntityId),
    SetEntityTags(EntityId, Vec<EntityTag>),
    RenameEntity(EntityId, String),
    CreateInvite(EntityId, ReadOnly, Vec<UserId>),
    TransferOwnership(EntityId, Username),
    BanGuest(EntityId, Username),
    Drop(EntityId),
    LoadMessagesBefore(ConversationId, MessageCursor),
    PostMessage(ConversationId, Revision, String),
    EditMessage(ConversationId, Revision, IndexInEntity, String),
    LoadSpreadsheet(SheetId),
    SetCell(SheetId, Revision, IndexInEntity, Cell),
    LoadDocument(DocumentId),
    InsertElement(DocumentId, Revision, IndexInEntity, Element),
    DeleteElement(DocumentId, Revision, IndexInEntity),
    SetElement(DocumentId, Revision, IndexInEntity, Element),
    LoadBucket(BucketId),
    DeleteFile(BucketId, Revision, IndexInEntity),
    FinishFile(BucketId, Revision, String),
}

/// What an authentication challenge would be for.
#[derive(Copy, Clone, Debug, PartialEq, Eq, Structural)]
pub enum ChallengeTarget {
    AccountCreation,
    Login,
}

/// Where a backwards message load starts: at one index, or at the end.
#[derive(Copy, Clone, Debug, PartialEq, Eq, Structural)]
pub enum MessageCursor {
    Specific(IndexInEntity),
    Latest,
}

} // verus!
