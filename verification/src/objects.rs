//! The collaborative payloads an entity can carry, and their mathematical
//! views: message lists, file lists, element lists and profile data.

use vstd::prelude::*;

use crate::cloning::{copy_strings, copy_vec, seq_view, strings_view, Dup};
use crate::types::{EntityId, Stamp, UserId};

verus! {

/// A payload kind the entity store can hold: it has a default value taken by
/// fresh or vacated entities, and can copy itself for a snapshot.
pub trait Payload: View + Dup {
    /// The view of the default payload.
    spec fn default_view() -> Self::V;

    /// The default payload, carried by a fresh or vacated entity.
    fn fresh() -> (r: Self)
        ensures
            r@ == Self::default_view(),
    ;
}

/// The picture attached to an entity: either an uploaded one or a generated
/// two-colour gradient.
#[derive(Debug)]
pub enum AssociatedImage {
    Picture(String),
    Gradient(String, String),
}

/// Mathematical image of an associated image.
#[verifier::ext_equal]
pub ghost enum ImageView {
    Picture(Seq<char>),
    Gradient(Seq<char>, Seq<char>),
}

impl View for AssociatedImage {
    type V = ImageView;

    open spec fn view(&self) -> ImageView {
        match self {
            AssociatedImage::Picture(s) => ImageView::Picture(s@),
            AssociatedImage::Gradient(a, b) => ImageView::Gradient(a@, b@),
        }
    }
}

impl Dup for AssociatedImage {
    fn duplicate(&self) -> (r: Self)
        ensures
            r@ == self@,
    {
        match self {
            AssociatedImage::Picture(s) => AssociatedImage::Picture(s.clone()),
            AssociatedImage::Gradient(a, b) => AssociatedImage::Gradient(a.clone(), b.clone()),
        }
    }
}

/// One message in a conversation.
#[derive(Debug)]
pub struct Message {
    pub author: UserId,
    pub content: String,
    pub created: Stamp,
    pub edited: Option<Stamp>,
}

/// Mathematical image of a message.
#[verifier::ext_equal]
pub ghost struct MessageView {
    pub author: UserId,
    pub content: Seq<char>,
    pub created: Stamp,
    pub edited: Option<Stamp>,
}

impl View for Message {
    type V = MessageView;

    open spec fn view(&self) -> MessageView {
        MessageView {
            author: self.author,
            content: self.content@,
            created: self.created,
            edited: self.edited,
        }
    }
}

impl Dup for Message {
    fn duplicate(&self) -> (r: Self)
        ensures
            r@ == self@,
    {
        Message {
            author: self.author,
            content: self.content.clone(),
            created: self.created,
            edited: self.edited,
        }
    }
}

/// A conversation: its ordered message list.
#[derive(Debug)]
pub struct Conversation {
    pub messages: Vec<Message>,
}

impl View for Conversation {
    type V = Seq<MessageView>;

    open spec fn view(&self) -> Seq<MessageView> {
        seq_view(self.messages@)
    }
}

impl Dup for Conversation {
    fn duplicate(&self) -> (r: Self)
        ensures
            r@ == self@,
    {
        Conversation { messages: copy_vec(&self.messages) }
    }
}

impl Payload for Conversation {
    open spec fn default_view() -> Seq<MessageView> {
        Seq::empty()
    }

    fn fresh() -> (r: Self)
        ensures
            r@ == Self::default_view(),
    {
        let r = Conversation { messages: Vec::new() };
        proof {
            assert(r@ =~= Seq::<MessageView>::empty());
        }
        r
    }
}

/// One stored file: its display name and the content hash it points at.
#[derive(Debug)]
pub struct File {
    pub name: String,
    pub sha256: String,
    pub size: usize,
    pub uploaded: Stamp,
}

/// Mathematical image of a file entry.
#[verifier::ext_equal]
pub ghost struct FileView {
    pub name: Seq<char>,
    pub sha256: Seq<char>,
    pub size: usize,
    pub uploaded: Stamp,
}

impl View for File {
    type V = FileView;

    open spec fn view(&self) -> FileView {
        FileView {
            name: self.name@,
            sha256: self.sha256@,
            size: self.size,
            uploaded: self.uploaded,
        }
    }
}

impl Dup for File {
    fn duplicate(&self) -> (r: Self)
        ensures
            r@ == self@,
    {
        File {
            name: self.name.clone(),
            sha256: self.sha256.clone(),
            size: self.size,
            uploaded: self.uploaded,
        }
    }
}

/// A file bucket: its ordered file list.
#[derive(Debug)]
pub struct Bucket {
    pub files: Vec<File>,
}

impl View for Bucket {
    type V = Seq<FileView>;

    open spec fn view(&self) -> Seq<FileView> {
        seq_view(self.files@)
    }
}

impl Dup for Bucket {
    fn duplicate(&self) -> (r: Self)
        ensures
            r@ == self@,
    {
        Bucket { files: copy_vec(&self.files) }
    }
}

impl Payload for Bucket {
    open spec fn default_view() -> Seq<FileView> {
        Seq::empty()
    }

    fn fresh() -> (r: Self)
        ensures
            r@ == Self::default_view(),
    {
        let r = Bucket { files: Vec::new() };
        proof {
            assert(r@ =~= Seq::<FileView>::empty());
        }
        r
    }
}

/// How one document element is rendered.
#[derive(Copy, Clone, Debug, PartialEq, Eq, Structural)]
pub enum ElementStyle {
    Title,
    Part,
    Chapter,
    Section,
    Subsection,
    Image,
    Paragraph,
}

/// One document element: its text and its style.
#[derive(Debug)]
pub struct Element {
    pub data: String,
    pub style: ElementStyle,
}

/// Mathematical image of a document element.
#[verifier::ext_equal]
pub ghost struct ElementView {
    pub data: Seq<char>,
    pub style: ElementStyle,
}

impl View for Element {
    type V = ElementView;

    open spec fn view(&self) -> ElementView {
        ElementView { data: self.data@, style: self.style }
    }
}

impl Dup for Element {
    fn duplicate(&self) -> (r: Self)
        ensures
            r@ == self@,
    {
        Element { data: self.data.clone(), style: self.style }
    }
}

/// A document: its ordered element list.
#[derive(Debug)]
pub struct Document {
    pub elements: Vec<Element>,
}

impl View for Document {
    type V = Seq<ElementView>;

    open spec fn view(&self) -> Seq<ElementView> {
        seq_view(self.elements@)
    }
}

impl Dup for Document {
    fn duplicate(&self) -> (r: Self)
        ensures
            r@ == self@,
    {
        Document { elements: copy_vec(&self.elements) }
    }
}

impl Payload for Document {
    open spec fn default_view() -> Seq<ElementView> {
        Seq::empty()
    }

    fn fresh() -> (r: Self)
        ensures
            r@ == Self::default_view(),
    {
        let r = Document { elements: Vec::new() };
        proof {
            assert(r@ =~= Seq::<ElementView>::empty());
        }
        r
    }
}

/// A user's public profile.
#[derive(Debug)]
pub struct UserData {
    pub name: String,
    pub email: String,
    pub status: String,
}

/// Mathematical image of a public profile.
#[verifier::ext_equal]
pub ghost struct UserDataView {
    pub name: Seq<char>,
    pub email: Seq<char>,
    pub status: Seq<char>,
}

impl View for UserData {
    type V = UserDataView;

    open spec fn view(&self) -> UserDataView {
        UserDataView { name: self.name@, email: self.email@, status: self.status@ }
    }
}

impl Dup for UserData {
    fn duplicate(&self) -> (r: Self)
        ensures
            r@ == self@,
    {
        UserData {
            name: self.name.clone(),
            email: self.email.clone(),
            status: self.status.clone(),
        }
    }
}

/// A pending grant of access, held by its recipient until accepted or
/// discarded.
#[derive(Debug)]
pub struct InviteData {
    pub orig_name: String,
    pub sender: UserId,
    pub target: EntityId,
    pub read_only: bool,
}

/// Mathematical image of a pending invite.
#[verifier::ext_equal]
pub ghost struct InviteView {
    pub orig_name: Seq<char>,
    pub sender: UserId,
    pub target: EntityId,
    pub read_only: bool,
}

impl View for InviteData {
    type V = InviteView;

    open spec fn view(&self) -> InviteView {
        InviteView {
            orig_name: self.orig_name@,
            sender: self.sender,
            target: self.target,
            read_only: self.read_only,
        }
    }
}

impl Dup for InviteData {
    fn duplicate(&self) -> (r: Self)
        ensures
            r@ == self@,
    {
        InviteData {
            orig_name: self.orig_name.clone(),
            sender: self.sender,
            target: self.target,
            read_only: self.read_only,
        }
    }
}

/// Whether a string sits in the list, compared by contents.
pub fn contains_string(v: &Vec<String>, s: &String) -> (r: bool)
    ensures
        r == strings_view(v@).contains(s@),
{
    let n = v.len();
    let mut i: usize = 0;
    while i < n
        invariant
            i <= n,
            n == v@.len(),
            forall|j: int| 0 <= j < i ==> (#[trigger] v@[j])@ != s@,
        decreases n - i,
    {
        if String::eq(&v[i], s) {
            proof {
                assert(strings_view(v@)[i as int] == s@);
            }
            return true;
        }
        i += 1;
    }
    proof {
        assert forall|j: int| 0 <= j < strings_view(v@).len() implies #[trigger] strings_view(v@)[j]
            != s@ by {
            assert(v@[j]@ != s@);
        }
    }
    false
}

} // verus!
