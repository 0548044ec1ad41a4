//! Identifiers, type aliases and the error type shared by every component.

use vstd::prelude::*;

verus! {

pub type EntityTag = String;

pub type Revision = u32;

pub type IndexInEntity = u64;

pub type Username = String;

pub type CellTag = String;

pub type Token = String;

pub type Email = String;

pub type Hash = String;

pub type UserId = usize;

pub type ConversationId = usize;

pub type BucketId = usize;

pub type DocumentId = usize;

pub type SheetId = usize;

pub type Stamp = u64;

pub type SessionId = usize;

/// Sentinel author id marking an entity that no user owns.
pub const NO_AUTHOR: usize = usize::MAX;

/// Stable address of one stored entity: its kind and its index inside that
/// kind's container.
#[derive(Copy, Clone, Debug, PartialEq, Eq, Structural, PartialOrd, Ord, Hash)]
pub enum EntityId {
    Conversation(ConversationId),
    Document(DocumentId),
    Bucket(BucketId),
    Spreadsheet(SheetId),
    User(UserId),
}

/// Why an operation was rejected. Every rejection is local to the one request
/// that caused it: nothing here ever terminates a session or the store.
#[derive(Copy, Clone, Debug, PartialEq, Eq, Structural)]
pub enum OpError {
    /// No session user: the caller has not opened a session yet.
    NotLoggedIn,
    /// A user id did not resolve to a stored user.
    NoSuchUser,
    /// The caller has no access entry for the target entity.
    NoAccessEntry,
    /// The caller's access entry is read-only but the operation writes.
    ReadOnlyAccess,
    /// The target entity id did not resolve.
    NoSuchEntity,
    /// A conversation id did not resolve.
    NoSuchConversation,
    /// A spreadsheet id did not resolve.
    NoSuchSpreadsheet,
    /// A document id did not resolve.
    NoSuchDocument,
    /// A bucket id did not resolve.
    NoSuchBucket,
    /// A message-load cursor lies outside the conversation.
    InvalidCursor,
    /// The caller's expected revision does not match the live revision.
    OutOfDate,
    /// A positional index lies outside the entity's payload.
    BadIndex,
    /// A file position lies past the end of the bucket.
    BadFileIndex,
    /// The requested username is already taken.
    UsernameTaken,
    /// The password hash does not match the stored one.
    WrongPassword,
    /// The presented token is not among the user's tokens.
    WrongToken,
    /// The session already has a user bound to it.
    SessionOpen,
    /// An invite index did not resolve to a pending invite.
    InvalidInvite,
    /// The caller's expected revision for its own user entity is stale.
    BadRevision,
    /// The sender of an accepted friend request no longer resolves.
    FriendGone,
    /// A username lookup found no user.
    InvalidUsername,
    /// An entity-kind tag named no known kind.
    InvalidEntityType,
    /// The caller is not the author of the target entity.
    NotTheAuthor,
    /// Only a server admin may trigger this operation.
    NotAnAdmin,
    /// A guest to invite is already on the target's guest list.
    GuestHasAccess,
    /// A guest to invite already holds a pending invite for the target.
    GuestAlreadyInvited,
    /// A guest to invite is not a friend of the caller.
    NotAFriend,
    /// A guest id to invite did not resolve.
    NoSuchGuest,
    /// A stored access entry points at an entity that no longer resolves.
    InternalInconsistency,
    /// The request kind is not served.
    Unsupported,
}

impl OpError {
    /// The textual failure reason sent back over the wire.
    pub fn message(&self) -> (r: &'static str)
        ensures
            r == self.spec_message(),
    {
        match self {
            OpError::NotLoggedIn => "Not logged in yet",
            OpError::NoSuchUser => "No such user",
            OpError::NoAccessEntry => "No such entity",
            OpError::ReadOnlyAccess => "Read-only access",
            OpError::NoSuchEntity => "No such entity",
            OpError::NoSuchConversation => "No such conversation",
            OpError::NoSuchSpreadsheet => "No such spreadsheet",
            OpError::NoSuchDocument => "No such document",
            OpError::NoSuchBucket => "No such bucket",
            OpError::InvalidCursor => "Invalid cursor",
            OpError::OutOfDate => "Out of date",
            OpError::BadIndex => "Out of date or bad index",
            OpError::BadFileIndex => "Bad index",
            OpError::UsernameTaken => "Username already taken",
            OpError::WrongPassword => "Wrong password",
            OpError::WrongToken => "Wrong Token",
            OpError::SessionOpen => "Session already opened",
            OpError::InvalidInvite => "Invalid invite",
            OpError::BadRevision => "bad revision",
            OpError::FriendGone => "friend gone",
            OpError::InvalidUsername => "Invalid username",
            OpError::InvalidEntityType => "Invalid entity type",
            OpError::NotTheAuthor => "User is not the author of this entity",
            OpError::NotAnAdmin => "Not an admin!",
            OpError::GuestHasAccess => "Guest already has access",
            OpError::GuestAlreadyInvited => "Guest already invited",
            OpError::NotAFriend => "Not a friend (yet)",
            OpError::NoSuchGuest => "No such guest user id",
            OpError::InternalInconsistency => "Internal DB inconsistency",
            OpError::Unsupported => "Unsupported request",
        }
    }

    pub open spec fn spec_message(&self) -> &'static str {
        match self {
            OpError::NotLoggedIn => "Not logged in yet",
            OpError::NoSuchUser => "No such user",
            OpError::NoAccessEntry => "No such entity",
            OpError::ReadOnlyAccess => "Read-only access",
            OpError::NoSuchEntity => "No such entity",
            OpError::NoSuchConversation => "No such conversation",
            OpError::NoSuchSpreadsheet => "No such spreadsheet",
            OpError::NoSuchDocument => "No such document",
            OpError::NoSuchBucket => "No such bucket",
            OpError::InvalidCursor => "Invalid cursor",
            OpError::OutOfDate => "Out of date",
            OpError::BadIndex => "Out of date or bad index",
            OpError::BadFileIndex => "Bad index",
            OpError::UsernameTaken => "Username already taken",
            OpError::WrongPassword => "Wrong password",
            OpError::WrongToken => "Wrong Token",
            OpError::SessionOpen => "Session already opened",
            OpError::InvalidInvite => "Invalid invite",
            OpError::BadRevision => "bad revision",
            OpError::FriendGone => "friend gone",
            OpError::InvalidUsername => "Invalid username",
            OpError::InvalidEntityType => "Invalid entity type",
            OpError::NotTheAuthor => "User is not the author of this entity",
            OpError::NotAnAdmin => "Not an admin!",
            OpError::GuestHasAccess => "Guest already has access",
            OpError::GuestAlreadyInvited => "Guest already invited",
            OpError::NoSuchGuest => "No such guest user id",
            OpError::NotAFriend => "Not a friend (yet)",
            OpError::InternalInconsistency => "Internal DB inconsistency",
            OpError::Unsupported => "Unsupported request",
        }
    }
}

} // verus!
