//! The part of the ActivityStreams vocabulary that the relay understands,
//! and the validation that keeps a page inside it.
//!
//! A page names the ActivityStreams namespace as its context and is made of
//! objects of five kinds, each with one accepted type. A page with anything
//! else in one of these places is refused as a whole.

use vstd::prelude::*;
use crate::error::{
    accepted_type, first_fault, lemma_first_fault_none, lemma_first_fault_skip, Fault,
    ObjectKind, ValidationError,
};
use crate::text::same;

verus! {

/// One page of the outbox of an account.
#[derive(Debug, Clone, PartialEq, Eq)]
pub struct Page {
    /// Names the ActivityStreams namespace.
    pub context: Context,
    /// Address of the page.
    pub id: String,
    /// Always `OrderedCollectionPage`.
    pub kind: String,
    /// The page of the posts that follow these: the older ones.
    pub next: Option<String>,
    /// The page of the posts that precede these: the newer ones.
    pub prev: Option<String>,
    /// The activities of the page, newest first.
    pub ordered_items: Vec<Create>,
}

/// The activity that made a post.
#[derive(Debug, Clone, PartialEq, Eq)]
pub struct Create {
    /// Id of the activity; the id of its post is used in its place.
    pub id: String,
    /// Always `Create`.
    pub kind: String,
    /// The post that was made.
    pub object: Post,
}

/// A post.
#[derive(Debug, Clone, PartialEq, Eq)]
pub struct Post {
    /// Id of the post: ends in a number, or in a number and `/activity`.
    pub id: String,
    /// Always `Note`.
    pub kind: String,
    /// Id of the post that this one answers.
    pub in_reply_to: Option<String>,
    /// When the post was published, as the feed writes it.
    pub published: String,
    /// Where the post is shown.
    pub url: String,
    pub sensitive: bool,
    /// The body: a small subset of HTML.
    pub content: String,
    /// Several images, one video or one audio.
    pub attachment: Vec<Document>,
    pub tag: Vec<Tag>,
}

/// A hashtag of a post.
#[derive(Debug, Clone, PartialEq, Eq)]
pub struct Tag {
    /// Always `Hashtag`.
    pub kind: String,
    /// The tag with its leading `#`.
    pub name: String,
}

/// An attachment of a post.
#[derive(Debug, Clone, PartialEq, Eq)]
pub struct Document {
    /// Always `Document`.
    pub kind: String,
    /// MIME type, `category/subtype`.
    pub media_type: String,
    /// Where the file is.
    pub url: String,
    /// Text that describes the file; the destination has no place for it.
    pub name: Option<String>,
}

/// The context of a page: the namespace, or a list that begins with it.
#[derive(Debug, Clone, PartialEq, Eq)]
pub enum Context {
    Str(String),
    List(Vec<CtxItem>),
}

/// One entry of a context list.
#[derive(Debug, Clone, PartialEq, Eq)]
pub enum CtxItem {
    Str(String),
    Obj(CtxItemObj),
}

/// An entry of a context list that defines terms; what it holds is not read.
#[derive(Debug, Clone, Copy, PartialEq, Eq, Structural)]
pub struct CtxItemObj {}

/// The namespace that the context of a page names.
pub open spec fn as2_namespace() -> Seq<char> {
    "https://www.w3.org/ns/activitystreams"@
}

/// The kind of the objects with a given index: page, activity, post,
/// hashtag and attachment, in that order.
pub open spec fn object_kind(idx: usize) -> ObjectKind {
    if idx == 0 {
        ObjectKind::Page
    } else if idx == 1 {
        ObjectKind::Activity
    } else if idx == 2 {
        ObjectKind::Post
    } else if idx == 3 {
        ObjectKind::Hashtag
    } else {
        ObjectKind::Attachment
    }
}

/// The one type that is accepted for the objects with a given index.
pub open spec fn expected_type(idx: usize) -> Seq<char> {
    accepted_type(object_kind(idx))
}

/// What is wrong with a type `found` at an object with index `idx`.
pub open spec fn type_fault(idx: usize, found: Seq<char>) -> Option<Fault> {
    if found == expected_type(idx) {
        None
    } else {
        Some(Fault::InvalidType { object: object_kind(idx), found })
    }
}

/// Whether `r` reports exactly `fault`.
pub open spec fn reports(r: Result<(), ValidationError>, fault: Option<Fault>) -> bool {
    match fault {
        None => r is Ok,
        Some(f) => r is Err && r->Err_0@ == f,
    }
}

/// An object whose type is checked against the one accepted for its kind.
pub trait CheckType<const TYPE_IDX: usize> {
    /// The type that the object declares.
    spec fn declared_type(&self) -> Seq<char>;

    fn check_type(&self) -> (r: Result<(), ValidationError>)
        ensures
            reports(r, type_fault(TYPE_IDX, self.declared_type())),
    ;
}

fn check_kind(idx: usize, found: &String) -> (r: Result<(), ValidationError>)
    ensures
        reports(r, type_fault(idx, found@)),
{
    let object = if idx == 0 {
        ObjectKind::Page
    } else if idx == 1 {
        ObjectKind::Activity
    } else if idx == 2 {
        ObjectKind::Post
    } else if idx == 3 {
        ObjectKind::Hashtag
    } else {
        ObjectKind::Attachment
    };
    if same(found.as_str(), object.accepted()) {
        Ok(())
    } else {
        Err(ValidationError::InvalidType { object, found: found.clone() })
    }
}

impl CheckType<0> for Page {
    open spec fn declared_type(&self) -> Seq<char> {
        self.kind@
    }

    fn check_type(&self) -> (r: Result<(), ValidationError>) {
        check_kind(0, &self.kind)
    }
}

impl CheckType<1> for Create {
    open spec fn declared_type(&self) -> Seq<char> {
        self.kind@
    }

    fn check_type(&self) -> (r: Result<(), ValidationError>) {
        check_kind(1, &self.kind)
    }
}

impl CheckType<2> for Post {
    open spec fn declared_type(&self) -> Seq<char> {
        self.kind@
    }

    fn check_type(&self) -> (r: Result<(), ValidationError>) {
        check_kind(2, &self.kind)
    }
}

impl CheckType<3> for Tag {
    open spec fn declared_type(&self) -> Seq<char> {
        self.kind@
    }

    fn check_type(&self) -> (r: Result<(), ValidationError>) {
        check_kind(3, &self.kind)
    }
}

impl CheckType<4> for Document {
    open spec fn declared_type(&self) -> Seq<char> {
        self.kind@
    }

    fn check_type(&self) -> (r: Result<(), ValidationError>) {
        check_kind(4, &self.kind)
    }
}

/// What is wrong with a context: a list needs two entries or more, and the
/// first must be a text; the namespace is the text itself or the first
/// entry of the list.
pub open spec fn context_fault(context: Context) -> Option<Fault> {
    match context {
        Context::Str(value) => if value@ == as2_namespace() {
            None
        } else {
            Some(Fault::ContextNotAs2)
        },
        Context::List(items) => if items@.len() <= 1 {
            Some(Fault::ContextTooShort)
        } else {
            match items@[0] {
                CtxItem::Obj(_) => Some(Fault::ContextFirstIsObject),
                CtxItem::Str(value) => if value@ == as2_namespace() {
                    None
                } else {
                    Some(Fault::ContextNotAs2)
                },
            }
        },
    }
}

/// An object whose context is checked against the namespace.
pub trait CheckContext {
    /// The context that the object declares.
    spec fn declared_context(&self) -> Context;

    fn check_context(&self) -> (r: Result<(), ValidationError>)
        ensures
            reports(r, context_fault(self.declared_context())),
    ;
}

impl CheckContext for Page {
    open spec fn declared_context(&self) -> Context {
        self.context
    }

    fn check_context(&self) -> (r: Result<(), ValidationError>) {
        let value = match &self.context {
            Context::Str(value) => value,
            Context::List(items) => {
                if items.len() <= 1 {
                    return Err(ValidationError::ContextTooShort);
                }
                match &items[0] {
                    CtxItem::Str(value) => value,
                    CtxItem::Obj(_) => {
                        return Err(ValidationError::ContextFirstIsObject);
                    },
                }
            },
        };
        if same(value.as_str(), "https://www.w3.org/ns/activitystreams") {
            Ok(())
        } else {
            Err(ValidationError::ContextNotAs2)
        }
    }
}

/// What is wrong with an attachment: its type, if it is not the accepted
/// one.
pub open spec fn document_fault(document: Document) -> Option<Fault> {
    type_fault(4, document.kind@)
}

/// What is wrong with a hashtag: its type, if it is not the accepted one.
pub open spec fn tag_fault(tag: Tag) -> Option<Fault> {
    type_fault(3, tag.kind@)
}

/// The first thing wrong with a post: its own type, then its attachments in
/// order, then its hashtags in order.
pub open spec fn post_fault(post: Post) -> Option<Fault> {
    if type_fault(2, post.kind@) is Some {
        type_fault(2, post.kind@)
    } else if first_fault(post.attachment@.map_values(|d: Document| document_fault(d))) is Some {
        first_fault(post.attachment@.map_values(|d: Document| document_fault(d)))
    } else {
        first_fault(post.tag@.map_values(|t: Tag| tag_fault(t)))
    }
}

/// The first thing wrong with an activity: its own type, then its post.
pub open spec fn create_fault(create: Create) -> Option<Fault> {
    if type_fault(1, create.kind@) is Some {
        type_fault(1, create.kind@)
    } else {
        post_fault(create.object)
    }
}

/// The first thing wrong with a page: its context, then its own type, then
/// its activities in order.
pub open spec fn page_fault(page: Page) -> Option<Fault> {
    if context_fault(page.context) is Some {
        context_fault(page.context)
    } else if type_fault(0, page.kind@) is Some {
        type_fault(0, page.kind@)
    } else {
        first_fault(page.ordered_items@.map_values(|c: Create| create_fault(c)))
    }
}

/// Whether every type in a post is the accepted one.
pub open spec fn post_conforms(post: Post) -> bool {
    &&& post.kind@ == expected_type(2)
    &&& forall|i: int|
        0 <= i < post.attachment@.len() ==> (#[trigger] post.attachment@[i]).kind@
            == expected_type(4)
    &&& forall|i: int| 0 <= i < post.tag@.len() ==> (#[trigger] post.tag@[i]).kind@ == expected_type(3)
}

/// Whether the context of a page names the namespace, as a text or as the
/// first of two or more entries of a list, and every type in the page is the
/// accepted one.
pub open spec fn page_conforms(page: Page) -> bool {
    &&& match page.context {
        Context::Str(value) => value@ == as2_namespace(),
        Context::List(items) => items@.len() > 1 && items@[0] is Str && items@[0]->Str_0@
            == as2_namespace(),
    }
    &&& page.kind@ == expected_type(0)
    &&& forall|i: int|
        0 <= i < page.ordered_items@.len() ==> (#[trigger] page.ordered_items@[i]).kind@
            == expected_type(1) && post_conforms(page.ordered_items@[i].object)
}

/// Nothing is wrong with a post exactly where each of its types is the
/// accepted one.
pub proof fn lemma_post_fault_none(post: Post)
    ensures
        post_fault(post) is None <==> post_conforms(post),
{
    let docs = post.attachment@.map_values(|d: Document| document_fault(d));
    let tags = post.tag@.map_values(|t: Tag| tag_fault(t));
    lemma_first_fault_none(docs);
    lemma_first_fault_none(tags);
    if post_fault(post) is None {
        assert forall|i: int| 0 <= i < post.attachment@.len() implies (
        #[trigger] post.attachment@[i]).kind@ == expected_type(4) by {
            assert(docs[i] is None);
        }
        assert forall|i: int| 0 <= i < post.tag@.len() implies (#[trigger] post.tag@[i]).kind@
            == expected_type(3) by {
            assert(tags[i] is None);
        }
    }
    if post_conforms(post) {
        assert forall|k: int| 0 <= k < docs.len() implies docs[k] is None by {
            assert(post.attachment@[k].kind@ == expected_type(4));
        }
        assert forall|k: int| 0 <= k < tags.len() implies tags[k] is None by {
            assert(post.tag@[k].kind@ == expected_type(3));
        }
    }
}

/// Nothing is wrong with a page exactly where its context names the
/// namespace in one of the two accepted ways and each type in it is the
/// accepted one: a deviation in any one of these places is found.
pub proof fn lemma_page_fault_none(page: Page)
    ensures
        page_fault(page) is None <==> page_conforms(page),
{
    let items = page.ordered_items@.map_values(|c: Create| create_fault(c));
    lemma_first_fault_none(items);
    if page_fault(page) is None {
        assert forall|i: int| 0 <= i < page.ordered_items@.len() implies (
        #[trigger] page.ordered_items@[i]).kind@ == expected_type(1) && post_conforms(
            page.ordered_items@[i].object,
        ) by {
            assert(items[i] is None);
            lemma_post_fault_none(page.ordered_items@[i].object);
        }
    }
    if page_conforms(page) {
        assert forall|k: int| 0 <= k < items.len() implies items[k] is None by {
            assert(page.ordered_items@[k].kind@ == expected_type(1));
            lemma_post_fault_none(page.ordered_items@[k].object);
        }
    }
}

impl Post {
    /// Checks the type of the post, of its attachments and of its hashtags,
    /// and reports the first that is not the accepted one.
    #[verifier::loop_isolation(false)]
    pub fn validate(&self) -> (r: Result<(), ValidationError>)
        ensures
            reports(r, post_fault(*self)),
            r is Ok <==> post_conforms(*self),
    {
        proof {
            lemma_post_fault_none(*self);
        }
        match self.check_type() {
            Ok(()) => {},
            Err(e) => {
                return Err(e);
            },
        }
        let ghost docs = self.attachment@.map_values(|d: Document| document_fault(d));
        let mut i: usize = 0;
        while i < self.attachment.len()
            invariant
                0 <= i <= self.attachment.len(),
                docs == self.attachment@.map_values(|d: Document| document_fault(d)),
                forall|k: int| 0 <= k < i ==> docs[k] is None,
            decreases self.attachment.len() - i,
        {
            match self.attachment[i].check_type() {
                Ok(()) => {},
                Err(e) => {
                    proof {
                        lemma_first_fault_skip(docs, i as int);
                        assert(docs.skip(i as int)[0] == docs[i as int]);
                    }
                    return Err(e);
                },
            }
            i = i + 1;
        }
        proof {
            lemma_first_fault_none(docs);
        }
        let ghost tags = self.tag@.map_values(|t: Tag| tag_fault(t));
        let mut j: usize = 0;
        while j < self.tag.len()
            invariant
                0 <= j <= self.tag.len(),
                tags == self.tag@.map_values(|t: Tag| tag_fault(t)),
                forall|k: int| 0 <= k < j ==> tags[k] is None,
            decreases self.tag.len() - j,
        {
            match self.tag[j].check_type() {
                Ok(()) => {},
                Err(e) => {
                    proof {
                        lemma_first_fault_skip(tags, j as int);
                        assert(tags.skip(j as int)[0] == tags[j as int]);
                    }
                    return Err(e);
                },
            }
            j = j + 1;
        }
        proof {
            lemma_first_fault_none(tags);
        }
        Ok(())
    }
}

impl Create {
    /// Checks the type of the activity, then its post.
    pub fn validate(&self) -> (r: Result<(), ValidationError>)
        ensures
            reports(r, create_fault(*self)),
    {
        match self.check_type() {
            Ok(()) => self.object.validate(),
            Err(e) => Err(e),
        }
    }
}

impl Page {
    /// Checks that the page stays inside the vocabulary: its context, its
    /// type and every object in it. The first deviation is reported, and a
    /// page is accepted exactly where there is none.
    #[verifier::loop_isolation(false)]
    pub fn validate(&self) -> (r: Result<(), ValidationError>)
        ensures
            reports(r, page_fault(*self)),
            r is Ok <==> page_conforms(*self),
    {
        proof {
            lemma_page_fault_none(*self);
        }
        match self.check_context() {
            Ok(()) => {},
            Err(e) => {
                return Err(e);
            },
        }
        match self.check_type() {
            Ok(()) => {},
            Err(e) => {
                return Err(e);
            },
        }
        let ghost items = self.ordered_items@.map_values(|c: Create| create_fault(c));
        let mut i: usize = 0;
        while i < self.ordered_items.len()
            invariant
                0 <= i <= self.ordered_items.len(),
                items == self.ordered_items@.map_values(|c: Create| create_fault(c)),
                forall|k: int| 0 <= k < i ==> items[k] is None,
            decreases self.ordered_items.len() - i,
        {
            match self.ordered_items[i].validate() {
                Ok(()) => {},
                Err(e) => {
                    proof {
                        lemma_first_fault_skip(items, i as int);
                        assert(items.skip(i as int)[0] == items[i as int]);
                    }
                    return Err(e);
                },
            }
            i = i + 1;
        }
        proof {
            lemma_first_fault_none(items);
        }
        Ok(())
    }
}

} // verus!
