//! Delivery: which send operation a post calls for, in which order the
//! posts of a page are sent, and what is remembered of each one sent.

use vstd::prelude::*;
use std::collections::VecDeque;
use crate::as2::{Create, Document, Page, Post};
use crate::body::{body_tokens, clean_body, cleaned};
use crate::error::{Error, Failure, Fault, ParseError, ValidationError};
use crate::handle::{handle_of, ids_of};
use crate::link::{parse_url, parsed_url};
use crate::post::MediaMedium;
use crate::text::{chars, opt_view, same, scan_segment, segment_len};

pub use crate::handle::{de_tg_msg_id, ser_tg_msg_id};

verus! {

/// Something that sends the posts of a page to a destination. What was
/// sent comes back also where sending failed, so that it can be stored and
/// is not sent again.
pub trait Con {
    /// Sends posts in the form of activities, given newest first.
    fn send(&self, items: Vec<Create>) -> (IdMap, Result<(), Error>);

    /// Sends the posts of a page: hands its activities to `send`, as they stand.
    fn send_page(&self, page: Page) -> (r: (IdMap, Result<(), Error>))
        ensures
            call_ensures(Self::send, (self, page.ordered_items), r),
    {
        self.send(page.ordered_items)
    }
}

/// One post that was sent: its id, and the channel and the message that the
/// destination gave for it.
#[derive(Debug, Clone, PartialEq, Eq)]
pub struct Delivered {
    pub id: String,
    pub chat_id: i64,
    pub msg_id: i32,
}

impl Delivered {
    /// The handle of the message.
    pub open spec fn handle(self) -> Seq<u8> {
        handle_of(self.chat_id, self.msg_id)
    }
}

/// What a list of sent posts maps each post id to: the handle of the first
/// one with that id.
pub open spec fn entries_map(entries: Seq<Delivered>) -> Map<Seq<char>, Seq<u8>>
    decreases entries.len(),
{
    if entries.len() == 0 {
        Map::empty()
    } else {
        let rest = entries_map(entries.drop_last());
        let last = entries.last();
        if rest.contains_key(last.id@) {
            rest
        } else {
            rest.insert(last.id@, last.handle())
        }
    }
}

/// The first entry with a given id decides what the id maps to.
pub proof fn lemma_entries_map_first(entries: Seq<Delivered>, id: Seq<char>, at: int)
    requires
        0 <= at < entries.len(),
        entries[at].id@ == id,
        forall|k: int| 0 <= k < at ==> entries[k].id@ != id,
    ensures
        entries_map(entries).contains_key(id),
        entries_map(entries)[id] == entries[at].handle(),
    decreases entries.len(),
{
    let rest = entries.drop_last();
    if at < entries.len() - 1 {
        lemma_entries_map_first(rest, id, at);
    } else {
        lemma_entries_map_absent(rest, id);
    }
}

/// An id that no entry has is not mapped.
pub proof fn lemma_entries_map_absent(entries: Seq<Delivered>, id: Seq<char>)
    requires
        forall|k: int| 0 <= k < entries.len() ==> entries[k].id@ != id,
    ensures
        !entries_map(entries).contains_key(id),
    decreases entries.len(),
{
    if entries.len() > 0 {
        lemma_entries_map_absent(entries.drop_last(), id);
    }
}

/// Every entry's id is mapped.
pub proof fn lemma_entries_map_has(entries: Seq<Delivered>, i: int)
    requires
        0 <= i < entries.len(),
    ensures
        entries_map(entries).contains_key(entries[i].id@),
    decreases entries.len(),
{
    if i < entries.len() - 1 {
        lemma_entries_map_has(entries.drop_last(), i);
    }
}

/// From the id of each post that was sent to the handle that the destination
/// gave for it. An id is written once: what it maps to never changes.
pub struct IdMap {
    entries: Vec<Delivered>,
}

impl View for IdMap {
    type V = Map<Seq<char>, Seq<u8>>;

    closed spec fn view(&self) -> Map<Seq<char>, Seq<u8>> {
        entries_map(self.entries@)
    }
}

impl IdMap {
    /// What was written, in the order in which it was written.
    pub closed spec fn entries(self) -> Seq<Delivered> {
        self.entries@
    }

    /// The map is what its entries say.
    pub proof fn lemma_view(self)
        ensures
            self@ == entries_map(self.entries()),
    {
    }

    /// A mapping without entries.
    pub fn new() -> (map: Self)
        ensures
            map@ == Map::<Seq<char>, Seq<u8>>::empty(),
            map.entries().len() == 0,
    {
        IdMap { entries: Vec::new() }
    }

    /// The channel and the message that the post `id` was sent as.
    pub fn get(&self, id: &str) -> (ids: Option<(i64, i32)>)
        ensures
            match ids {
                Some((chat_id, msg_id)) => self@.contains_key(id@) && self@[id@] == handle_of(
                    chat_id,
                    msg_id,
                ),
                None => !self@.contains_key(id@),
            },
    {
        let mut i: usize = 0;
        while i < self.entries.len()
            invariant
                0 <= i <= self.entries.len(),
                forall|k: int| 0 <= k < i ==> self.entries@[k].id@ != id@,
            decreases self.entries.len() - i,
        {
            if same(self.entries[i].id.as_str(), id) {
                proof {
                    lemma_entries_map_first(self.entries@, id@, i as int);
                }
                return Some((self.entries[i].chat_id, self.entries[i].msg_id));
            }
            i = i + 1;
        }
        proof {
            lemma_entries_map_absent(self.entries@, id@);
        }
        None
    }

    /// Writes down that the post `id` was sent as message `msg_id` of
    /// channel `chat_id`, unless the map has the post already.
    pub fn record(&mut self, id: String, chat_id: i64, msg_id: i32)
        ensures
            final(self)@ == if old(self)@.contains_key(id@) {
                old(self)@
            } else {
                old(self)@.insert(id@, handle_of(chat_id, msg_id))
            },
            final(self).entries() == if old(self)@.contains_key(id@) {
                old(self).entries()
            } else {
                old(self).entries().push(Delivered { id, chat_id, msg_id })
            },
    {
        if self.get(id.as_str()).is_none() {
            let ghost before = self.entries@;
            self.entries.push(Delivered { id, chat_id, msg_id });
            proof {
                assert(self.entries@.drop_last() =~= before);
            }
        }
    }

    /// How many posts the map has.
    pub fn len(&self) -> (n: usize)
        ensures
            n == self.entries().len(),
    {
        self.entries.len()
    }

    /// The post that was written as number `i`.
    pub fn entry(&self, i: usize) -> (sent: &Delivered)
        requires
            i < self.entries().len(),
        ensures
            *sent == self.entries()[i as int],
            self@.contains_key(sent.id@),
    {
        proof {
            lemma_entries_map_has(self.entries@, i as int);
        }
        &self.entries[i]
    }
}

/// The category of a MIME type: what stands before its first `/`, and the
/// whole type where it has none.
pub open spec fn category(media_type: Seq<char>) -> Seq<char> {
    media_type.take(segment_len(media_type))
}

/// What a MIME type says of an attachment: its medium is its category. A
/// type without a `/` has no category, and a category that is neither
/// `image`, `video` nor `audio` is none that can be sent.
pub open spec fn medium_of(media_type: Seq<char>) -> Result<MediaMedium, Fault> {
    if segment_len(media_type) == media_type.len() {
        Err(Fault::InvalidMediaType { media_type })
    } else if category(media_type) == "image"@ {
        Ok(MediaMedium::Image)
    } else if category(media_type) == "video"@ {
        Ok(MediaMedium::Video)
    } else if category(media_type) == "audio"@ {
        Ok(MediaMedium::Audio)
    } else {
        Err(Fault::UnsupportedMediaType { media_type })
    }
}

/// Whether an attachment is an image.
pub open spec fn is_image(document: Document) -> bool {
    medium_of(document.media_type@) == Ok::<MediaMedium, Fault>(MediaMedium::Image)
}

/// How the attachments of a post are sent.
#[derive(Debug, Clone, Copy, PartialEq, Eq, Structural)]
pub enum Layout {
    /// No attachment: the body is sent as a text.
    Text,
    /// One attachment, sent by its medium with the body as its caption.
    Single(MediaMedium),
    /// Several images, sent as one album.
    Album,
}

/// How attachments are sent, by their number and their types: none as a
/// text, one by its medium, several as an album if all are images.
pub open spec fn layout_of(attachments: Seq<Document>) -> Result<Layout, Fault> {
    if attachments.len() == 0 {
        Ok(Layout::Text)
    } else if attachments.len() == 1 {
        match medium_of(attachments[0].media_type@) {
            Ok(medium) => Ok(Layout::Single(medium)),
            Err(fault) => Err(fault),
        }
    } else if forall|i: int| 0 <= i < attachments.len() ==> is_image(#[trigger] attachments[i]) {
        Ok(Layout::Album)
    } else {
        Err(Fault::NotAllImages)
    }
}

/// Several attachments of which one is no image are refused, whatever the
/// others are and wherever they are.
pub proof fn lemma_mixed_media_are_refused(attachments: Seq<Document>, body: Seq<char>, i: int)
    requires
        attachments.len() > 1,
        0 <= i < attachments.len(),
        !is_image(attachments[i]),
    ensures
        layout_of(attachments) == Err::<Layout, Fault>(Fault::NotAllImages),
        planned(attachments, body) == Err::<Planned, Failure>(
            Failure::Validation(Fault::NotAllImages),
        ),
{
}

/// Whether `r` is `want`, its error being taken by its view.
pub open spec fn is_layout(r: Result<Layout, ValidationError>, want: Result<Layout, Fault>) -> bool {
    match want {
        Ok(layout) => r == Ok::<Layout, ValidationError>(layout),
        Err(fault) => r is Err && r->Err_0@ == fault,
    }
}

fn medium(media_type: &str) -> (r: Result<MediaMedium, ValidationError>)
    ensures
        crate::post::is_medium(r, medium_of(media_type@)),
{
    let v = chars(media_type);
    proof {
        assert(v@.skip(0) =~= v@);
    }
    let slash = scan_segment(&v, 0);
    if slash == v.len() {
        return Err(ValidationError::InvalidMediaType { media_type: String::from_str(media_type) });
    }
    let name = media_type.substring_char(0, slash);
    proof {
        assert(name@ =~= category(media_type@));
    }
    if same(name, "image") {
        Ok(MediaMedium::Image)
    } else if same(name, "video") {
        Ok(MediaMedium::Video)
    } else if same(name, "audio") {
        Ok(MediaMedium::Audio)
    } else {
        Err(ValidationError::UnsupportedMediaType { media_type: String::from_str(media_type) })
    }
}

/// How `attachments` are sent, or why they cannot be.
pub fn classify(attachments: &Vec<Document>) -> (r: Result<Layout, ValidationError>)
    ensures
        is_layout(r, layout_of(attachments@)),
{
    if attachments.len() == 0 {
        return Ok(Layout::Text);
    }
    if attachments.len() == 1 {
        return match medium(attachments[0].media_type.as_str()) {
            Ok(m) => Ok(Layout::Single(m)),
            Err(e) => Err(e),
        };
    }
    let mut i: usize = 0;
    while i < attachments.len()
        invariant
            0 <= i <= attachments.len(),
            attachments.len() > 1,
            forall|k: int| 0 <= k < i ==> is_image(#[trigger] attachments@[k]),
        decreases attachments.len() - i,
    {
        match medium(attachments[i].media_type.as_str()) {
            Ok(MediaMedium::Image) => {},
            _ => {
                assert(!is_image(attachments@[i as int]));
                return Err(ValidationError::NotAllImages);
            },
        }
        i = i + 1;
    }
    Ok(Layout::Album)
}

/// One picture of an album.
#[derive(Debug, Clone, PartialEq, Eq)]
pub struct AlbumItem {
    /// Where the picture is.
    pub url: String,
    /// The text under the album, on the picture that carries it.
    pub caption: Option<String>,
}

/// The one send operation that a post calls for.
#[derive(Debug, Clone, PartialEq, Eq)]
pub enum SendOp {
    Text { body: String },
    Photo { url: String, caption: String },
    Video { url: String, caption: String },
    Audio { url: String, caption: String },
    Album { items: Vec<AlbumItem> },
}

/// A send operation with its texts taken by their characters.
pub enum Planned {
    Text { body: Seq<char> },
    Photo { url: Seq<char>, caption: Seq<char> },
    Video { url: Seq<char>, caption: Seq<char> },
    Audio { url: Seq<char>, caption: Seq<char> },
    Album { items: Seq<(Seq<char>, Option<Seq<char>>)> },
}

/// A picture of an album with its texts taken by their characters.
pub open spec fn album_item_view(item: AlbumItem) -> (Seq<char>, Option<Seq<char>>) {
    (
        item.url@,
        match item.caption {
            Some(c) => Some(c@),
            None => None,
        },
    )
}

impl View for SendOp {
    type V = Planned;

    open spec fn view(&self) -> Planned {
        match self {
            SendOp::Text { body } => Planned::Text { body: body@ },
            SendOp::Photo { url, caption } => Planned::Photo { url: url@, caption: caption@ },
            SendOp::Video { url, caption } => Planned::Video { url: url@, caption: caption@ },
            SendOp::Audio { url, caption } => Planned::Audio { url: url@, caption: caption@ },
            SendOp::Album { items } => Planned::Album {
                items: items@.map_values(|i: AlbumItem| album_item_view(i)),
            },
        }
    }
}

/// The operation that sends one file of a given medium.
pub open spec fn single(medium: MediaMedium, url: Seq<char>, caption: Seq<char>) -> Planned {
    match medium {
        MediaMedium::Image => Planned::Photo { url, caption },
        MediaMedium::Video => Planned::Video { url, caption },
        MediaMedium::Audio => Planned::Audio { url, caption },
    }
}

/// The pictures of an album with the given addresses, in order. The first
/// carries the caption, the others none.
pub open spec fn album(addresses: Seq<Option<Seq<char>>>, caption: Seq<char>) -> Seq<
    (Seq<char>, Option<Seq<char>>),
> {
    Seq::new(
        addresses.len(),
        |i: int|
            (
                addresses[i].unwrap(),
                if i == 0 {
                    Some(caption)
                } else {
                    None
                },
            ),
    )
}

/// The send operation for files that are laid out as `layout`, given the
/// address of each as it was read, `None` standing for an address that is
/// no absolute URL, and given the text of the post. A text needs no
/// address. A single file needs its address. An album needs all of them.
pub open spec fn composed(layout: Layout, addresses: Seq<Option<Seq<char>>>, body: Seq<char>) -> Result<
    Planned,
    Failure,
> {
    match layout {
        Layout::Text => Ok(Planned::Text { body }),
        Layout::Single(medium) => if addresses.len() > 0 && addresses[0] is Some {
            Ok(single(medium, addresses[0].unwrap(), body))
        } else {
            Err(Failure::Parse(ParseError::InvalidUrl))
        },
        Layout::Album => if forall|i: int| 0 <= i < addresses.len() ==> addresses[i] is Some {
            Ok(Planned::Album { items: album(addresses, body) })
        } else {
            Err(Failure::Parse(ParseError::InvalidUrl))
        },
    }
}

/// The address of each attachment as the `url` crate reads it.
pub open spec fn addresses_of(attachments: Seq<Document>) -> Seq<Option<Seq<char>>> {
    attachments.map_values(|d: Document| parsed_url(d.url@))
}

/// The send operation for a post with the given attachments and the given
/// text, or why there is none: the attachments are classified first, then
/// the address of each is read.
pub open spec fn planned(attachments: Seq<Document>, body: Seq<char>) -> Result<Planned, Failure> {
    match layout_of(attachments) {
        Err(fault) => Err(Failure::Validation(fault)),
        Ok(layout) => composed(layout, addresses_of(attachments), body),
    }
}

/// The send operation for a post: its body is rewritten, then its
/// attachments decide.
pub open spec fn post_plan(post: Post) -> Result<Planned, Failure> {
    match cleaned(body_tokens(post.content@)) {
        Err(e) => Err(Failure::Parse(e)),
        Ok(body) => planned(post.attachment@, body),
    }
}

/// Whether `r` is `want`, texts being taken by their characters.
pub open spec fn is_plan(r: Result<SendOp, Error>, want: Result<Planned, Failure>) -> bool {
    match want {
        Ok(op) => r is Ok && r->Ok_0@ == op,
        Err(failure) => r is Err && r->Err_0@ == failure,
    }
}

/// Addresses, each taken by its characters where there is one.
pub open spec fn address_views(addresses: Seq<Option<String>>) -> Seq<Option<Seq<char>>> {
    addresses.map_values(|a: Option<String>| opt_view(a))
}

/// Puts together the send operation for files that are laid out as
/// `layout`, from the address of each as it was read and the text of the
/// post.
#[verifier::loop_isolation(false)]
pub fn compose(layout: Layout, addresses: Vec<Option<String>>, body: String) -> (r: Result<
    SendOp,
    Error,
>)
    ensures
        is_plan(r, composed(layout, address_views(addresses@), body@)),
{
    let ghost all = address_views(addresses@);
    let mut addresses = addresses;
    match layout {
        Layout::Text => Ok(SendOp::Text { body }),
        Layout::Single(medium) => {
            if addresses.len() == 0 {
                return Err(Error::Parse(ParseError::InvalidUrl));
            }
            let url = match addresses.swap_remove(0) {
                Some(url) => url,
                None => {
                    return Err(Error::Parse(ParseError::InvalidUrl));
                },
            };
            Ok(
                match medium {
                    MediaMedium::Image => SendOp::Photo { url, caption: body },
                    MediaMedium::Video => SendOp::Video { url, caption: body },
                    MediaMedium::Audio => SendOp::Audio { url, caption: body },
                },
            )
        },
        Layout::Album => {
            let ghost want = album(all, body@);
            let mut caption: Option<String> = Some(body);
            let mut items: Vec<AlbumItem> = Vec::new();
            let n = addresses.len();
            let mut i: usize = 0;
            while i < n
                invariant
                    0 <= i <= n,
                    n == all.len(),
                    addresses@.len() == n,
                    want == album(all, body@),
                    items@.len() == i,
                    i == 0 ==> caption is Some && caption->0@ == body@,
                    i > 0 ==> caption is None,
                    forall|k: int| i <= k < n ==> opt_view(addresses@[k]) == all[k],
                    forall|k: int| 0 <= k < i ==> all[k] is Some,
                    forall|k: int| 0 <= k < i ==> album_item_view(#[trigger] items@[k]) == want[k],
                decreases n - i,
            {
                let mut slot: Option<String> = None;
                let ghost before = addresses@;
                std::mem::swap(&mut slot, &mut addresses[i]);
                let url = match slot {
                    Some(url) => url,
                    None => {
                        assert(all[i as int] is None);
                        return Err(Error::Parse(ParseError::InvalidUrl));
                    },
                };
                let taken = caption;
                caption = None;
                items.push(AlbumItem { url, caption: taken });
                i = i + 1;
            }
            let op = SendOp::Album { items };
            proof {
                assert(items@.map_values(|i: AlbumItem| album_item_view(i)) =~= want);
            }
            Ok(op)
        },
    }
}

/// Reads the address of each attachment.
pub fn addresses(attachments: &Vec<Document>) -> (r: Vec<Option<String>>)
    ensures
        address_views(r@) == addresses_of(attachments@),
{
    let mut r: Vec<Option<String>> = Vec::new();
    let mut i: usize = 0;
    while i < attachments.len()
        invariant
            0 <= i <= attachments.len(),
            r@.len() == i,
            forall|k: int|
                0 <= k < i ==> opt_view(#[trigger] r@[k]) == parsed_url(
                    attachments@[k].url@,
                ),
        decreases attachments.len() - i,
    {
        r.push(parse_url(attachments[i].url.as_str()));
        i = i + 1;
    }
    assert(address_views(r@) =~= addresses_of(attachments@));
    r
}

/// Picks the send operation for attachments and a text that is ready to be
/// sent.
pub fn dispatch(attachments: &Vec<Document>, body: String) -> (r: Result<SendOp, Error>)
    ensures
        is_plan(r, planned(attachments@, body@)),
{
    match classify(attachments) {
        Ok(layout) => compose(layout, addresses(attachments), body),
        Err(e) => Err(Error::Validation(e)),
    }
}

/// Picks the send operation for a post: rewrites its body and lets its
/// attachments decide.
pub fn plan_post(post: &Post) -> (r: Result<SendOp, Error>)
    ensures
        is_plan(r, post_plan(*post)),
{
    match clean_body(post.content.as_str()) {
        Ok(body) => dispatch(&post.attachment, body),
        Err(e) => Err(Error::Parse(e)),
    }
}

/// Where the message that a post answers is found.
#[derive(Debug, Clone, PartialEq, Eq)]
pub enum ReplyLookup {
    /// The post answers none.
    NoReply,
    /// The post answers one that was sent in this round, as this message.
    Known(i32),
    /// The post answers one that was not sent in this round: the store is
    /// to be asked for the handle of this id.
    AskStore(String),
}

/// A reply lookup with its text taken by its characters.
pub enum Lookup {
    NoReply,
    Known(i32),
    AskStore(Seq<char>),
}

impl View for ReplyLookup {
    type V = Lookup;

    open spec fn view(&self) -> Lookup {
        match self {
            ReplyLookup::NoReply => Lookup::NoReply,
            ReplyLookup::Known(msg_id) => Lookup::Known(*msg_id),
            ReplyLookup::AskStore(id) => Lookup::AskStore(id@),
        }
    }
}

/// Where the message that `post` answers is found, given what was sent in
/// this round: the mapping of the round is looked at first, the store is
/// asked only for what the round does not know.
pub open spec fn lookup_of(post: Post, round: Map<Seq<char>, Seq<u8>>) -> Lookup {
    match post.in_reply_to {
        None => Lookup::NoReply,
        Some(id) => if round.contains_key(id@) {
            Lookup::Known(ids_of(round[id@]).1)
        } else {
            Lookup::AskStore(id@)
        },
    }
}

/// Where the message that `post` answers is found. The mapping is read, never
/// written.
pub fn reply_lookup(post: &Post, round: &IdMap) -> (lookup: ReplyLookup)
    ensures
        lookup@ == lookup_of(*post, round@),
{
    match &post.in_reply_to {
        None => ReplyLookup::NoReply,
        Some(id) => match round.get(id.as_str()) {
            Some((chat_id, msg_id)) => {
                proof {
                    crate::handle::lemma_handle_round_trip(chat_id, msg_id);
                }
                ReplyLookup::Known(msg_id)
            },
            None => ReplyLookup::AskStore(id.clone()),
        },
    }
}

/// The message to answer, given what the store holds for the post that is
/// answered: the message of the handle, or none where the store has no
/// handle, in which case the post is sent as if it answered nothing.
pub fn reply_from_store(stored: Option<&[u8]>) -> (msg_id: Option<i32>)
    requires
        stored matches Some(handle) ==> handle@.len() == 16,
    ensures
        msg_id == match stored {
            Some(handle) => Some(ids_of(handle@).1),
            None => None,
        },
{
    match stored {
        Some(handle) => Some(de_tg_msg_id(handle).1),
        None => None,
    }
}

/// How an attempt to send the post in flight ended.
#[derive(Debug, Clone, Copy, PartialEq, Eq, Structural)]
pub enum Outcome {
    /// The destination took the post, as this message of this channel.
    Sent { chat_id: i64, msg_id: i32 },
    /// The destination is flooded and asks for a wait of this length.
    RetryAfter { secs: u64, nanos: u32 },
    /// The post could not be sent, for any other reason.
    Failed,
}

/// What the caller does after an attempt.
#[derive(Debug, Clone, Copy, PartialEq, Eq, Structural)]
pub enum Step {
    /// Go on with the next post.
    Continue,
    /// Sleep for exactly this long, then go on: the same post comes again.
    Wait { secs: u64, nanos: u32 },
    /// Stop: no further post is handed out. What was recorded so far is
    /// kept and can be stored.
    Abort,
}

/// A delivery queue as a value: the posts that wait, oldest first, the post
/// in flight, what was recorded, and whether the queue has given up.
pub struct QueueView {
    pub pending: Seq<Create>,
    pub current: Option<Create>,
    pub done: Map<Seq<char>, Seq<u8>>,
    pub aborted: bool,
}

/// The queue for the activities of a page, which come newest first: they
/// wait in reverse, so that the oldest is sent first and no answer is sent
/// before the post that it answers.
pub open spec fn queue_of(items: Seq<Create>) -> QueueView {
    QueueView {
        pending: items.reverse(),
        current: None,
        done: Map::empty(),
        aborted: false,
    }
}

/// The queue after the next post was asked for: the post at the front is in
/// flight, unless one is in flight already, none waits or the queue has
/// given up.
pub open spec fn after_next(q: QueueView) -> QueueView {
    if q.aborted || q.current is Some || q.pending.len() == 0 {
        q
    } else {
        QueueView { pending: q.pending.drop_first(), current: Some(q.pending[0]), ..q }
    }
}

/// A mapping after a post was recorded: an id that is there stays as it is.
pub open spec fn recorded(
    done: Map<Seq<char>, Seq<u8>>,
    id: Seq<char>,
    chat_id: i64,
    msg_id: i32,
) -> Map<Seq<char>, Seq<u8>> {
    if done.contains_key(id) {
        done
    } else {
        done.insert(id, handle_of(chat_id, msg_id))
    }
}

/// The queue after an attempt on the post in flight has ended. A post that
/// was sent is recorded under its own id. A post that met the rate limit
/// goes back to the front, before all that wait. Any other failure makes
/// the queue give up. With no post in flight nothing changes.
pub open spec fn after_settle(q: QueueView, outcome: Outcome) -> QueueView {
    match q.current {
        None => q,
        Some(item) => match outcome {
            Outcome::Sent { chat_id, msg_id } => QueueView {
                current: None,
                done: recorded(q.done, item.object.id@, chat_id, msg_id),
                ..q
            },
            Outcome::RetryAfter { secs, nanos } => QueueView {
                pending: seq![item] + q.pending,
                current: None,
                ..q
            },
            Outcome::Failed => QueueView { current: None, aborted: true, ..q },
        },
    }
}

/// What the caller does after an attempt on the post in flight has ended.
pub open spec fn step_of(q: QueueView, outcome: Outcome) -> Step {
    match q.current {
        None => Step::Continue,
        Some(_) => match outcome {
            Outcome::Sent { chat_id, msg_id } => Step::Continue,
            Outcome::RetryAfter { secs, nanos } => Step::Wait { secs, nanos },
            Outcome::Failed => Step::Abort,
        },
    }
}

/// The queue after the first `n` posts were each asked for and sent at the
/// first attempt, post number `k` as the message `acks[k]`.
pub open spec fn after_sends(q: QueueView, acks: Seq<(i64, i32)>, n: nat) -> QueueView
    decreases n,
{
    if n == 0 {
        q
    } else {
        let before = after_sends(q, acks, (n - 1) as nat);
        after_settle(
            after_next(before),
            Outcome::Sent { chat_id: acks[n - 1].0, msg_id: acks[n - 1].1 },
        )
    }
}

/// Posts are attempted oldest first: after `n` posts of a page were sent,
/// the next that is handed out is the one that stands `n` places from the
/// end of the page, and the posts before it in the page still wait.
pub proof fn lemma_oldest_first(items: Seq<Create>, acks: Seq<(i64, i32)>, n: nat)
    requires
        n < items.len(),
        acks.len() >= n,
    ensures
        after_sends(queue_of(items), acks, n).pending == items.reverse().skip(n as int),
        after_sends(queue_of(items), acks, n).current is None,
        !after_sends(queue_of(items), acks, n).aborted,
        after_next(after_sends(queue_of(items), acks, n)).current == Some(
            items[items.len() - 1 - n],
        ),
    decreases n,
{
    let rev = items.reverse();
    if n == 0 {
        assert(rev.skip(0) =~= rev);
    } else {
        lemma_oldest_first(items, acks, (n - 1) as nat);
        assert(rev.skip(n - 1).drop_first() =~= rev.skip(n as int));
    }
    assert(rev.skip(n as int)[0] == items[items.len() - 1 - n]);
}

/// A post that met the rate limit comes again before any other: after the
/// wait, the same post is in flight, the posts that wait are the same and in
/// the same order, and nothing was recorded.
pub proof fn lemma_retry_keeps_place(q: QueueView, secs: u64, nanos: u32)
    requires
        q.current is Some,
        !q.aborted,
    ensures
        step_of(q, Outcome::RetryAfter { secs, nanos }) == (Step::Wait { secs, nanos }),
        after_next(after_settle(q, Outcome::RetryAfter { secs, nanos })) == q,
{
    let back = after_settle(q, Outcome::RetryAfter { secs, nanos });
    assert(back.pending.drop_first() =~= q.pending);
}

/// A post is recorded once: whatever is recorded under its id later, the
/// first handle stays.
pub proof fn lemma_recorded_once(
    done: Map<Seq<char>, Seq<u8>>,
    id: Seq<char>,
    first: (i64, i32),
    later: (i64, i32),
)
    ensures
        recorded(done, id, first.0, first.1).contains_key(id),
        recorded(recorded(done, id, first.0, first.1), id, later.0, later.1) == recorded(
            done,
            id,
            first.0,
            first.1,
        ),
        !done.contains_key(id) ==> recorded(done, id, first.0, first.1)[id] == handle_of(
            first.0,
            first.1,
        ),
{
}

/// After the queue has given up, no post is handed out.
pub proof fn lemma_abort_is_final(q: QueueView)
    requires
        q.current is Some,
    ensures
        step_of(q, Outcome::Failed) == Step::Abort,
        after_next(after_settle(q, Outcome::Failed)).current is None,
        after_settle(q, Outcome::Failed).done == q.done,
        after_settle(q, Outcome::Failed).pending == q.pending,
{
}

/// The posts of one page on their way to the destination. The caller asks
/// for the next post, tries to send it, and says how that ended; the queue
/// decides what comes next.
pub struct DeliveryQueue {
    pending: VecDeque<Create>,
    current: Option<Create>,
    done: IdMap,
    aborted: bool,
}

impl View for DeliveryQueue {
    type V = QueueView;

    closed spec fn view(&self) -> QueueView {
        QueueView {
            pending: self.pending@,
            current: self.current,
            done: self.done@,
            aborted: self.aborted,
        }
    }
}

impl DeliveryQueue {
    /// The queue for the activities of a page, given newest first.
    pub fn new(items: Vec<Create>) -> (queue: Self)
        ensures
            queue@ == queue_of(items@),
    {
        let ghost all = items@;
        let mut items = items;
        let mut pending: VecDeque<Create> = VecDeque::new();
        while items.len() > 0
            invariant
                items@.len() + pending@.len() == all.len(),
                items@ == all.take(items@.len() as int),
                forall|j: int| 0 <= j < pending@.len() ==> pending@[j] == all[all.len() - 1 - j],
            decreases items.len(),
        {
            let ghost before = items@;
            match items.pop() {
                Some(item) => {
                    pending.push_back(item);
                    proof {
                        assert(items@ =~= all.take(items@.len() as int));
                    }
                },
                None => {},
            }
        }
        proof {
            assert(pending@ =~= all.reverse());
        }
        DeliveryQueue { pending, current: None, done: IdMap::new(), aborted: false }
    }

    /// Puts the next post in flight and says whether one is in flight.
    pub fn next(&mut self) -> (more: bool)
        ensures
            final(self)@ == after_next(old(self)@),
            more == final(self)@.current is Some,
    {
        if self.aborted || self.current.is_some() {
            return self.current.is_some();
        }
        let ghost before = self.pending@;
        match self.pending.pop_front() {
            Some(item) => {
                proof {
                    assert(self.pending@ =~= before.drop_first());
                }
                self.current = Some(item);
                true
            },
            None => false,
        }
    }

    /// The post in flight.
    pub fn current(&self) -> (item: Option<&Create>)
        ensures
            match item {
                Some(i) => self@.current == Some(*i),
                None => self@.current is None,
            },
    {
        self.current.as_ref()
    }

    /// What was recorded so far in this round.
    pub fn done(&self) -> (map: &IdMap)
        ensures
            map@ == self@.done,
    {
        &self.done
    }

    /// Takes in how the attempt on the post in flight ended, and says what
    /// the caller does next.
    pub fn settle(&mut self, outcome: Outcome) -> (step: Step)
        ensures
            final(self)@ == after_settle(old(self)@, outcome),
            step == step_of(old(self)@, outcome),
    {
        match self.current.take() {
            None => Step::Continue,
            Some(item) => match outcome {
                Outcome::Sent { chat_id, msg_id } => {
                    self.done.record(item.object.id, chat_id, msg_id);
                    Step::Continue
                },
                Outcome::RetryAfter { secs, nanos } => {
                    self.pending.push_front(item);
                    Step::Wait { secs, nanos }
                },
                Outcome::Failed => {
                    self.aborted = true;
                    Step::Abort
                },
            },
        }
    }

    /// Ends the round: hands out what was recorded, also after the queue has
    /// given up, so that what was sent is not sent again.
    pub fn finish(self) -> (map: IdMap)
        ensures
            map@ == self@.done,
    {
        self.done
    }
}

} // verus!
