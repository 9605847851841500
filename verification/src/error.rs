//! The failures that the relay distinguishes.

use vstd::prelude::*;
use crate::utils::{digits_of, push_digits};

verus! {

/// A text that should follow a small grammar and does not.
#[derive(Debug, Clone, Copy, PartialEq, Eq, Structural)]
pub enum ParseError {
    /// The body of a post is not well-formed markup.
    Malformed,
    /// A plain link in a body has no `href` attribute.
    MissingHref,
    /// An anchor starts inside a plain link, or ends where none is open.
    UnknownAnchor,
    /// The body ends inside a plain link.
    UnclosedAnchor,
    /// A post id does not end in `/<digits>` or `/<digits>/activity`.
    NoIntegerId,
    /// The digits of a post id name a number that no cursor can hold.
    IdOutOfRange,
    /// An address is not an absolute URL.
    InvalidUrl,
}

/// The objects that a page is made of.
#[derive(Debug, Clone, Copy, PartialEq, Eq, Structural)]
pub enum ObjectKind {
    Page,
    Activity,
    Post,
    Hashtag,
    Attachment,
}

/// A page or a post that is outside the vocabulary that the relay
/// understands.
#[derive(Debug, Clone, PartialEq, Eq)]
pub enum ValidationError {
    /// The context of a page is a list of one entry or none.
    ContextTooShort,
    /// The context of a page is a list that begins with an object.
    ContextFirstIsObject,
    /// The context of a page does not name the expected namespace.
    ContextNotAs2,
    /// The type of `object` is `found`, which is not the one type that is
    /// accepted in its place.
    InvalidType { object: ObjectKind, found: String },
    /// The media type of an attachment has no `/` in it.
    InvalidMediaType { media_type: String },
    /// The one attachment of a post is neither image, video nor audio.
    UnsupportedMediaType { media_type: String },
    /// A post has several attachments, and one of them is not an image.
    NotAllImages,
    /// The media of a post are laid out as one item and are not one item.
    NotSingle,
    /// The media list of a feed item is empty.
    EmptyMediaList,
    /// The media entry with this index names no address.
    NoMediaUrl { index: usize },
    /// The media entry with this index names no medium.
    NoMedium { index: usize },
    /// A feed item has no id.
    NoGuid,
    /// A feed does not say when it was built.
    NoBuildDate,
    /// The date at which a feed was built is not written as RFC 2822 asks.
    InvalidDate,
    /// An address of a media file is not one of the store of media files.
    NotAMediaFile { url: String },
}

/// A validation error with its texts taken by their characters.
pub enum Fault {
    ContextTooShort,
    ContextFirstIsObject,
    ContextNotAs2,
    InvalidType { object: ObjectKind, found: Seq<char> },
    InvalidMediaType { media_type: Seq<char> },
    UnsupportedMediaType { media_type: Seq<char> },
    NotAllImages,
    NotSingle,
    EmptyMediaList,
    NoMediaUrl { index: usize },
    NoMedium { index: usize },
    NoGuid,
    NoBuildDate,
    InvalidDate,
    NotAMediaFile { url: Seq<char> },
}

impl View for ValidationError {
    type V = Fault;

    open spec fn view(&self) -> Fault {
        match self {
            ValidationError::ContextTooShort => Fault::ContextTooShort,
            ValidationError::ContextFirstIsObject => Fault::ContextFirstIsObject,
            ValidationError::ContextNotAs2 => Fault::ContextNotAs2,
            ValidationError::InvalidType { object, found } => Fault::InvalidType {
                object: *object,
                found: found@,
            },
            ValidationError::InvalidMediaType { media_type } => Fault::InvalidMediaType {
                media_type: media_type@,
            },
            ValidationError::UnsupportedMediaType { media_type } => Fault::UnsupportedMediaType {
                media_type: media_type@,
            },
            ValidationError::NotAllImages => Fault::NotAllImages,
            ValidationError::NotSingle => Fault::NotSingle,
            ValidationError::EmptyMediaList => Fault::EmptyMediaList,
            ValidationError::NoMediaUrl { index } => Fault::NoMediaUrl { index: *index },
            ValidationError::NoMedium { index } => Fault::NoMedium { index: *index },
            ValidationError::NoGuid => Fault::NoGuid,
            ValidationError::NoBuildDate => Fault::NoBuildDate,
            ValidationError::InvalidDate => Fault::InvalidDate,
            ValidationError::NotAMediaFile { url } => Fault::NotAMediaFile { url: url@ },
        }
    }
}

/// Options that do not go together.
#[derive(Debug, Clone, Copy, PartialEq, Eq, Structural)]
pub enum ConfigError {
    /// The feed is to be fetched, and no host is given.
    MissingHost,
    /// The feed is to be looked up, and the host or the account is not given.
    MissingHostOrAccount,
    /// The account has no link to a profile of the expected type.
    NoProfileLink,
    /// The address of a page is neither `http://..`, `https://..` nor
    /// `stdio://in`.
    InvalidUri,
}

/// Why a round, or a step of it, failed.
#[derive(Debug, Clone, PartialEq, Eq)]
pub enum Error {
    Config(ConfigError),
    Validation(ValidationError),
    Parse(ParseError),
    /// A request for the feed or for the account was not answered with
    /// success; the text says how.
    Network(String),
    /// The destination refused a post for another reason than its rate
    /// limit; the text says how.
    Delivery(String),
}

/// An error with its texts taken by their characters.
pub enum Failure {
    Config(ConfigError),
    Validation(Fault),
    Parse(ParseError),
    Network(Seq<char>),
    Delivery(Seq<char>),
}

impl View for Error {
    type V = Failure;

    open spec fn view(&self) -> Failure {
        match self {
            Error::Config(e) => Failure::Config(*e),
            Error::Validation(e) => Failure::Validation(e@),
            Error::Parse(e) => Failure::Parse(*e),
            Error::Network(text) => Failure::Network(text@),
            Error::Delivery(text) => Failure::Delivery(text@),
        }
    }
}

/// The first fault in a sequence of findings, if there is one.
pub open spec fn first_fault(findings: Seq<Option<Fault>>) -> Option<Fault>
    decreases findings.len(),
{
    if findings.len() == 0 {
        None
    } else if findings[0] is Some {
        findings[0]
    } else {
        first_fault(findings.drop_first())
    }
}

/// Findings without a fault at the front can be left out.
pub proof fn lemma_first_fault_skip(findings: Seq<Option<Fault>>, n: int)
    requires
        0 <= n <= findings.len(),
        forall|k: int| 0 <= k < n ==> findings[k] is None,
    ensures
        first_fault(findings) == first_fault(findings.skip(n)),
    decreases n,
{
    if n == 0 {
        assert(findings.skip(0) =~= findings);
    } else {
        let rest = findings.drop_first();
        assert forall|k: int| 0 <= k < n - 1 implies rest[k] is None by {
            assert(rest[k] == findings[k + 1]);
        }
        lemma_first_fault_skip(rest, n - 1);
        assert(rest.skip(n - 1) =~= findings.skip(n));
    }
}

/// No fault is found exactly where every finding is empty.
pub proof fn lemma_first_fault_none(findings: Seq<Option<Fault>>)
    ensures
        first_fault(findings) is None <==> forall|k: int|
            0 <= k < findings.len() ==> findings[k] is None,
    decreases findings.len(),
{
    if findings.len() > 0 {
        let rest = findings.drop_first();
        lemma_first_fault_none(rest);
        if first_fault(findings) is None {
            assert forall|k: int| 0 <= k < findings.len() implies findings[k] is None by {
                if k > 0 {
                    assert(rest[k - 1] == findings[k]);
                }
            }
        } else if findings[0] is None {
            assert(first_fault(rest) is Some);
            let k = choose|k: int| 0 <= k < rest.len() && !(rest[k] is None);
            assert(findings[k + 1] == rest[k]);
        }
    }
}

/// The one type that is accepted for the objects of a kind.
pub open spec fn accepted_type(object: ObjectKind) -> Seq<char> {
    match object {
        ObjectKind::Page => "OrderedCollectionPage"@,
        ObjectKind::Activity => "Create"@,
        ObjectKind::Post => "Note"@,
        ObjectKind::Hashtag => "Hashtag"@,
        ObjectKind::Attachment => "Document"@,
    }
}

impl ObjectKind {
    /// The one type that is accepted for the objects of this kind.
    pub fn accepted(&self) -> (name: &'static str)
        ensures
            name@ == accepted_type(*self),
    {
        match self {
            ObjectKind::Page => "OrderedCollectionPage",
            ObjectKind::Activity => "Create",
            ObjectKind::Post => "Note",
            ObjectKind::Hashtag => "Hashtag",
            ObjectKind::Attachment => "Document",
        }
    }
}

impl ParseError {
    /// What is reported of the error.
    pub open spec fn text(self) -> Seq<char> {
        match self {
            ParseError::Malformed => "the body of a post is not well-formed"@,
            ParseError::MissingHref => "no href in the <a> tag"@,
            ParseError::UnknownAnchor => "unknown <a> tag"@,
            ParseError::UnclosedAnchor => "the body of a post ends inside an <a> tag"@,
            ParseError::NoIntegerId => "no integer id in the activity guid"@,
            ParseError::IdOutOfRange => "the integer id in the activity guid is too large"@,
            ParseError::InvalidUrl => "invalid url"@,
        }
    }

    /// What is reported of the error.
    pub fn message(&self) -> (m: &'static str)
        ensures
            m@ == self.text(),
    {
        match self {
            ParseError::Malformed => "the body of a post is not well-formed",
            ParseError::MissingHref => "no href in the <a> tag",
            ParseError::UnknownAnchor => "unknown <a> tag",
            ParseError::UnclosedAnchor => "the body of a post ends inside an <a> tag",
            ParseError::NoIntegerId => "no integer id in the activity guid",
            ParseError::IdOutOfRange => "the integer id in the activity guid is too large",
            ParseError::InvalidUrl => "invalid url",
        }
    }
}

impl ConfigError {
    /// What is reported of the error.
    pub open spec fn text(self) -> Seq<char> {
        match self {
            ConfigError::MissingHost => "option host is required when input=fetch"@,
            ConfigError::MissingHostOrAccount => "options host and acct are required when input=query-fetch"@,
            ConfigError::NoProfileLink => "profile link with context type application/activity+json not found"@,
            ConfigError::InvalidUri => "invalid uri"@,
        }
    }

    /// What is reported of the error.
    pub fn message(&self) -> (m: &'static str)
        ensures
            m@ == self.text(),
    {
        match self {
            ConfigError::MissingHost => "option host is required when input=fetch",
            ConfigError::MissingHostOrAccount => "options host and acct are required when input=query-fetch",
            ConfigError::NoProfileLink => "profile link with context type application/activity+json not found",
            ConfigError::InvalidUri => "invalid uri",
        }
    }
}

/// What is reported of a fault.
pub open spec fn fault_text(fault: Fault) -> Seq<char> {
    match fault {
        Fault::ContextTooShort => "invalid context that is a too short list"@,
        Fault::ContextFirstIsObject => "invalid context of which the first item is an object"@,
        Fault::ContextNotAs2 => "invalid context that does not contain as2"@,
        Fault::InvalidType { object, found } => "invalid type "@ + found + " (expected "@
            + accepted_type(object) + ")"@,
        Fault::InvalidMediaType { media_type } => "invalid media type "@ + media_type,
        Fault::UnsupportedMediaType { media_type } => "unsupported media type "@ + media_type,
        Fault::NotAllImages => "media type not all images for multiple media"@,
        Fault::NotSingle => "single media layout but multiple media items"@,
        Fault::EmptyMediaList => "empty media list"@,
        Fault::NoMediaUrl { index } => "no url in the media item "@ + digits_of(index as nat),
        Fault::NoMedium { index } => "no medium to indicate the media type in the media item "@
            + digits_of(index as nat),
        Fault::NoGuid => "no guid in the item"@,
        Fault::NoBuildDate => "no last build date in the channel"@,
        Fault::InvalidDate => "the last build date of the channel is not a date"@,
        Fault::NotAMediaFile { url } => "url unable to handle: "@ + url,
    }
}

fn joined(head: &str, tail: &str) -> (text: String)
    ensures
        text@ == head@ + tail@,
{
    let mut text = String::from_str(head);
    text.append(tail);
    text
}

fn numbered(head: &str, index: usize) -> (text: String)
    ensures
        text@ == head@ + digits_of(index as nat),
{
    let mut text = String::from_str(head);
    push_digits(&mut text, index as u64);
    text
}

impl ValidationError {
    /// What is reported of the error.
    pub fn message(&self) -> (m: String)
        ensures
            m@ == fault_text(self@),
    {
        match self {
            ValidationError::ContextTooShort => String::from_str(
                "invalid context that is a too short list",
            ),
            ValidationError::ContextFirstIsObject => String::from_str(
                "invalid context of which the first item is an object",
            ),
            ValidationError::ContextNotAs2 => String::from_str(
                "invalid context that does not contain as2",
            ),
            ValidationError::InvalidType { object, found } => {
                let mut m = joined("invalid type ", found.as_str());
                m.append(" (expected ");
                m.append(object.accepted());
                m.append(")");
                assert(m@ =~= fault_text(self@));
                m
            },
            ValidationError::InvalidMediaType { media_type } => joined(
                "invalid media type ",
                media_type.as_str(),
            ),
            ValidationError::UnsupportedMediaType { media_type } => joined(
                "unsupported media type ",
                media_type.as_str(),
            ),
            ValidationError::NotAllImages => String::from_str(
                "media type not all images for multiple media",
            ),
            ValidationError::NotSingle => String::from_str(
                "single media layout but multiple media items",
            ),
            ValidationError::EmptyMediaList => String::from_str("empty media list"),
            ValidationError::NoMediaUrl { index } => numbered("no url in the media item ", *index),
            ValidationError::NoMedium { index } => numbered(
                "no medium to indicate the media type in the media item ",
                *index,
            ),
            ValidationError::NoGuid => String::from_str("no guid in the item"),
            ValidationError::NoBuildDate => String::from_str("no last build date in the channel"),
            ValidationError::InvalidDate => String::from_str(
                "the last build date of the channel is not a date",
            ),
            ValidationError::NotAMediaFile { url } => joined("url unable to handle: ", url.as_str()),
        }
    }
}

/// What is reported of a failure: what is reported of the error in it, or
/// the text that it carries.
pub open spec fn failure_text(failure: Failure) -> Seq<char> {
    match failure {
        Failure::Config(e) => e.text(),
        Failure::Validation(fault) => fault_text(fault),
        Failure::Parse(e) => e.text(),
        Failure::Network(text) => text,
        Failure::Delivery(text) => text,
    }
}

impl Error {
    /// What is reported of the error.
    pub fn message(&self) -> (m: String)
        ensures
            m@ == failure_text(self@),
    {
        match self {
            Error::Config(e) => String::from_str(e.message()),
            Error::Validation(e) => e.message(),
            Error::Parse(e) => String::from_str(e.message()),
            Error::Network(text) => text.clone(),
            Error::Delivery(text) => text.clone(),
        }
    }
}

} // verus!
