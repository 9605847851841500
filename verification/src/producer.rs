//! Posts from a feed of items: each item becomes a post, its description
//! rewritten for the destination and its media laid out.

use vstd::prelude::*;
use chrono::{DateTime, Utc};
use crate::body::{body_tokens, clean_body, cleaned};
use crate::error::{
    first_fault, lemma_first_fault_none, lemma_first_fault_skip, Error, Failure, Fault,
    ValidationError,
};
use crate::post::{medium_named, Media, MediaItem, MediaLayout, MediaMedium, Post};
use crate::text::{
    chars, has_prefix, matches_at, name_run, opt_view, same, scan_name, scan_segment,
    segment_len,
};

verus! {

/// Something that hands out the posts of a feed, oldest first, with the
/// time at which the feed was built.
pub trait Producer {
    fn fetch_posts(&self) -> Result<(String, Vec<Post>), Error>;
}

/// A producer that reads the feed of an account.
pub struct MastodonProducer {
    rss_url: String,
}

impl MastodonProducer {
    /// A producer for the feed at `rss_url`.
    pub fn new(rss_url: String) -> (producer: Self)
        ensures
            producer.rss_url()@ == rss_url@,
    {
        Self { rss_url }
    }

    /// The address of the feed.
    pub closed spec fn rss_url(&self) -> String {
        self.rss_url
    }

    /// The address of the feed.
    pub fn url(&self) -> (url: &str)
        ensures
            url@ == self.rss_url()@,
    {
        self.rss_url.as_str()
    }
}

/// One media entry of a feed item, as the feed writes it.
#[derive(Debug, Clone, PartialEq, Eq)]
pub struct MediaEntry {
    pub url: Option<String>,
    pub medium: Option<String>,
}

/// One item of a feed, as the feed writes it.
#[derive(Debug, Clone, PartialEq, Eq)]
pub struct FeedItem {
    pub description: Option<String>,
    pub guid: Option<String>,
    pub link: Option<String>,
    /// The media entries of the item, where it has a media list.
    pub media: Option<Vec<MediaEntry>>,
}

/// The time that `chrono` reads from a text written as RFC 2822 asks,
/// moved to UTC and written as RFC 3339 asks; `None` where the text is not
/// written so.
pub uninterp spec fn rfc3339_of(date: Seq<char>) -> Option<Seq<char>>;

/// `chrono::DateTime::parse_from_rfc2822`, then `with_timezone` to UTC and
/// `to_rfc3339` on the result: the same instant written as RFC 3339 asks,
/// or `None` where the crate reports an error.
#[verifier::external_body]
fn to_rfc3339(date: &str) -> (stamp: Option<String>)
    ensures
        opt_view(stamp) == rfc3339_of(date@),
{
    DateTime::parse_from_rfc2822(date).ok().map(|d| d.with_timezone(&Utc).to_rfc3339())
}

/// The time at which a feed was built, as it is handed on.
pub open spec fn stamp_of(date: Option<Seq<char>>) -> Result<Seq<char>, Fault> {
    match date {
        None => Err(Fault::NoBuildDate),
        Some(d) => match rfc3339_of(d) {
            None => Err(Fault::InvalidDate),
            Some(stamp) => Ok(stamp),
        },
    }
}

/// The time at which a feed was built, in UTC and written as RFC 3339
/// asks. A feed that names no time, or one that is not written as RFC 2822
/// asks, is refused.
pub fn build_stamp(last_build_date: Option<&str>) -> (r: Result<String, ValidationError>)
    ensures
        match stamp_of(
            match last_build_date {
                Some(d) => Some(d@),
                None => None,
            },
        ) {
            Ok(stamp) => r is Ok && r->Ok_0@ == stamp,
            Err(fault) => r is Err && r->Err_0@ == fault,
        },
{
    match last_build_date {
        None => Err(ValidationError::NoBuildDate),
        Some(date) => match to_rfc3339(date) {
            None => Err(ValidationError::InvalidDate),
            Some(stamp) => Ok(stamp),
        },
    }
}

/// What is wrong with an entry of a media list of several: it has to name
/// a medium, the medium has to be `image`, and it has to name an address.
pub open spec fn grouped_fault(entry: MediaEntry, index: int) -> Option<Fault> {
    match entry.medium {
        None => Some(Fault::NoMedium { index: index as usize }),
        Some(medium) => if medium@ != "image"@ {
            Some(Fault::UnsupportedMediaType { media_type: medium@ })
        } else if entry.url is None {
            Some(Fault::NoMediaUrl { index: index as usize })
        } else {
            None
        },
    }
}

/// What is wrong with each entry of a media list of several.
pub open spec fn grouped_faults(entries: Seq<MediaEntry>) -> Seq<Option<Fault>> {
    Seq::new(entries.len(), |i: int| grouped_fault(entries[i], i))
}

/// The layout of a media list, and the address and the medium of each of
/// its items. A list of one entry is one item of the medium that the entry
/// names. A list of several is a group of images. An empty list is
/// refused, and so is a list with an entry that lacks its address or its
/// medium, or that names a medium that is not accepted in its place.
pub open spec fn media_of(entries: Seq<MediaEntry>) -> Result<
    (MediaLayout, Seq<(Seq<char>, MediaMedium)>),
    Fault,
> {
    if entries.len() == 0 {
        Err(Fault::EmptyMediaList)
    } else if entries.len() == 1 {
        match entries[0].url {
            None => Err(Fault::NoMediaUrl { index: 0 }),
            Some(url) => match entries[0].medium {
                None => Err(Fault::NoMedium { index: 0 }),
                Some(medium) => match medium_named(medium@) {
                    Err(fault) => Err(fault),
                    Ok(m) => Ok((MediaLayout::Single, seq![(url@, m)])),
                },
            },
        }
    } else {
        match first_fault(grouped_faults(entries)) {
            Some(fault) => Err(fault),
            None => Ok(
                (
                    MediaLayout::Grouped,
                    Seq::new(
                        entries.len(),
                        |i: int| (entries[i].url.unwrap()@, MediaMedium::Image),
                    ),
                ),
            ),
        }
    }
}

/// The address and the medium of a media item. An item is shown where its
/// file is.
pub open spec fn item_view(item: MediaItem) -> (Seq<char>, MediaMedium) {
    (item.uri@, item.medium)
}

/// Whether `media` has the given layout and items, each shown where its
/// file is.
pub open spec fn media_is(media: Media, want: (MediaLayout, Seq<(Seq<char>, MediaMedium)>)) -> bool {
    &&& media.layout == want.0
    &&& media.items@.map_values(|i: MediaItem| item_view(i)) == want.1
    &&& forall|i: int|
        0 <= i < media.items@.len() ==> opt_view((#[trigger] media.items@[i]).link) == Some(
            media.items@[i].uri@,
        )
}

/// Lays out the media list of a feed item.
pub fn parse_media(entries: &Vec<MediaEntry>) -> (r: Result<Media, ValidationError>)
    ensures
        match media_of(entries@) {
            Ok(want) => r is Ok && media_is(r->Ok_0, want),
            Err(fault) => r is Err && r->Err_0@ == fault,
        },
{
    if entries.len() == 0 {
        return Err(ValidationError::EmptyMediaList);
    }
    if entries.len() == 1 {
        let url = match &entries[0].url {
            Some(url) => url,
            None => {
                return Err(ValidationError::NoMediaUrl { index: 0 });
            },
        };
        let medium = match &entries[0].medium {
            Some(name) => match MediaMedium::try_from(name.as_str()) {
                Ok(m) => m,
                Err(e) => {
                    return Err(e);
                },
            },
            None => {
                return Err(ValidationError::NoMedium { index: 0 });
            },
        };
        let mut items: Vec<MediaItem> = Vec::new();
        items.push(MediaItem { uri: url.clone(), medium, link: Some(url.clone()) });
        let media = Media { layout: MediaLayout::Single, items };
        proof {
            assert(media.items@.map_values(|i: MediaItem| item_view(i)) =~= seq![(url@, medium)]);
        }
        return Ok(media);
    }
    let ghost faults = grouped_faults(entries@);
    let ghost want = Seq::new(
        entries@.len(),
        |i: int| (entries@[i].url.unwrap()@, MediaMedium::Image),
    );
    let mut items: Vec<MediaItem> = Vec::new();
    let mut i: usize = 0;
    while i < entries.len()
        invariant
            0 <= i <= entries.len(),
            entries.len() > 1,
            faults == grouped_faults(entries@),
            want == Seq::new(
                entries@.len(),
                |i: int| (entries@[i].url.unwrap()@, MediaMedium::Image),
            ),
            items@.len() == i,
            forall|k: int| 0 <= k < i ==> faults[k] is None,
            forall|k: int| 0 <= k < i ==> item_view(#[trigger] items@[k]) == want[k],
            forall|k: int|
                0 <= k < i ==> opt_view((#[trigger] items@[k]).link) == Some(items@[k].uri@),
        decreases entries.len() - i,
    {
        proof {
            lemma_first_fault_skip(faults, i as int);
            assert(faults.skip(i as int)[0] == faults[i as int]);
        }
        let medium = match &entries[i].medium {
            Some(medium) => medium,
            None => {
                return Err(ValidationError::NoMedium { index: i });
            },
        };
        if !same(medium.as_str(), "image") {
            return Err(ValidationError::UnsupportedMediaType { media_type: medium.clone() });
        }
        let url = match &entries[i].url {
            Some(url) => url,
            None => {
                return Err(ValidationError::NoMediaUrl { index: i });
            },
        };
        items.push(MediaItem { uri: url.clone(), medium: MediaMedium::Image, link: Some(url.clone()) });
        i = i + 1;
    }
    proof {
        lemma_first_fault_none(faults);
        assert(items@.map_values(|i: MediaItem| item_view(i)) =~= want);
    }
    Ok(Media { layout: MediaLayout::Grouped, items })
}

/// What is wrong with a feed item: its description is rewritten first,
/// then its media list is laid out, then its id is asked for.
pub open spec fn item_failure(item: FeedItem) -> Option<Failure> {
    if item.description is Some && cleaned(body_tokens(item.description->0@)) is Err {
        Some(Failure::Parse(cleaned(body_tokens(item.description->0@))->Err_0))
    } else if item.media is Some && media_of(item.media->0@) is Err {
        Some(Failure::Validation(media_of(item.media->0@)->Err_0))
    } else if item.guid is None {
        Some(Failure::Validation(Fault::NoGuid))
    } else {
        None
    }
}

/// Whether `post` is the post of a feed item that nothing is wrong with:
/// the id and the link of the item, its description rewritten (no text
/// where it has none), its media laid out, and no relation to other posts.
pub open spec fn post_is(post: Post, item: FeedItem) -> bool {
    &&& Some(post.id@) == opt_view(item.guid)
    &&& Ok::<Seq<char>, crate::error::ParseError>(post.body@) == match item.description {
        Some(d) => cleaned(body_tokens(d@)),
        None => Ok(Seq::<char>::empty()),
    }
    &&& match item.media {
        Some(entries) => post.media is Some && media_of(entries@) is Ok && media_is(
            post.media->0,
            media_of(entries@)->Ok_0,
        ),
        None => post.media is None,
    }
    &&& post.rel@.len() == 0
    &&& opt_view(post.link) == opt_view(item.link)
}

impl Post {
    /// The post of a feed item.
    pub fn try_from(item: &FeedItem) -> (r: Result<Self, Error>)
        ensures
            match item_failure(*item) {
                Some(failure) => r is Err && r->Err_0@ == failure,
                None => r is Ok && post_is(r->Ok_0, *item),
            },
    {
        let body = match &item.description {
            Some(description) => match clean_body(description.as_str()) {
                Ok(body) => body,
                Err(e) => {
                    return Err(Error::Parse(e));
                },
            },
            None => String::new(),
        };
        let media = match &item.media {
            Some(entries) => match parse_media(entries) {
                Ok(media) => Some(media),
                Err(e) => {
                    return Err(Error::Validation(e));
                },
            },
            None => None,
        };
        let id = match &item.guid {
            Some(guid) => guid.clone(),
            None => {
                return Err(Error::Validation(ValidationError::NoGuid));
            },
        };
        let link = match &item.link {
            Some(link) => Some(link.clone()),
            None => None,
        };
        Ok(Post { id, body, media, rel: Vec::new(), link })
    }
}

/// What is wrong with the items of a feed, which are taken last to first:
/// the failure of the last item that has one.
pub open spec fn items_failure(items: Seq<FeedItem>) -> Option<Failure>
    decreases items.len(),
{
    if items.len() == 0 {
        None
    } else if item_failure(items.last()) is Some {
        item_failure(items.last())
    } else {
        items_failure(items.drop_last())
    }
}

/// The posts of the items of a feed. The feed lists its items newest
/// first; the posts come oldest first.
pub fn posts_of(items: &Vec<FeedItem>) -> (r: Result<Vec<Post>, Error>)
    ensures
        match items_failure(items@) {
            Some(failure) => r is Err && r->Err_0@ == failure,
            None => r is Ok && r->Ok_0@.len() == items@.len() && forall|k: int|
                0 <= k < items@.len() ==> post_is(
                    #[trigger] r->Ok_0@[k],
                    items@[items@.len() - 1 - k],
                ),
        },
{
    let mut posts: Vec<Post> = Vec::new();
    let mut left: usize = items.len();
    assert(items@.take(left as int) =~= items@);
    while left > 0
        invariant
            0 <= left <= items.len(),
            posts@.len() == items.len() - left,
            items_failure(items@) == items_failure(items@.take(left as int)),
            forall|k: int|
                0 <= k < posts@.len() ==> post_is(
                    #[trigger] posts@[k],
                    items@[items@.len() - 1 - k],
                ),
        decreases left,
    {
        proof {
            assert(items@.take(left as int).last() == items@[left - 1]);
            assert(items@.take(left as int).drop_last() =~= items@.take(left - 1));
        }
        match Post::try_from(&items[left - 1]) {
            Ok(post) => {
                posts.push(post);
            },
            Err(e) => {
                return Err(e);
            },
        }
        left = left - 1;
    }
    Ok(posts)
}

/// The path under which a host keeps its media files.
pub open spec fn media_store() -> Seq<char> {
    "/system/media_attachments/files/"@
}

/// How long the part of `url` is that leads to a media file: a scheme, which
/// is one character or more, none of them `:` or `/`; then `://`; then a
/// host, which is one character or more up to the first `/`; then the path
/// of the media store. `None` where `url` does not begin so.
pub open spec fn store_prefix_len(url: Seq<char>) -> Option<int> {
    let k = name_run(url);
    if k > 0 && has_prefix(url.skip(k), seq![':', '/', '/']) {
        let h = segment_len(url.skip(k + 3));
        if h > 0 && has_prefix(url.skip(k + 3 + h), media_store()) {
            Some(k + 3 + h + media_store().len())
        } else {
            None
        }
    } else {
        None
    }
}

/// `path` with `_` in place of each `/`.
pub open spec fn flattened(path: Seq<char>) -> Seq<char> {
    path.map_values(
        |c: char|
            if c == '/' {
                '_'
            } else {
                c
            },
    )
}

/// The name under which a media file is kept: its path below the media
/// store, flattened.
pub open spec fn file_name_of(url: Seq<char>) -> Result<Seq<char>, Fault> {
    match store_prefix_len(url) {
        None => Err(Fault::NotAMediaFile { url }),
        Some(n) => Ok(flattened(url.skip(n))),
    }
}

/// The name under which the media file at `url` is kept.
pub fn fname_from_url(url: &str) -> (r: Result<String, ValidationError>)
    ensures
        match file_name_of(url@) {
            Ok(name) => r is Ok && r->Ok_0@ == name,
            Err(fault) => r is Err && r->Err_0@ == fault,
        },
{
    let v = chars(url);
    let store = chars("/system/media_attachments/files/");
    proof {
        assert(v@.skip(0) =~= v@);
    }
    let k = scan_name(&v, 0);
    let scheme = k > 0 && v.len() - k >= 3 && v[k] == ':' && v[k + 1] == '/' && v[k + 2] == '/';
    proof {
        let tail = v@.skip(k as int);
        let mark = seq![':', '/', '/'];
        if scheme {
            assert(tail.take(3) =~= mark);
        } else if k > 0 && has_prefix(tail, mark) {
            assert(tail.take(3)[0] == v@[k as int]);
            assert(tail.take(3)[1] == v@[k + 1]);
            assert(tail.take(3)[2] == v@[k + 2]);
        }
    }
    if !scheme {
        return Err(ValidationError::NotAMediaFile { url: String::from_str(url) });
    }
    let host_end = scan_segment(&v, k + 3);
    let found = host_end > k + 3 && matches_at(&v, &store, host_end);
    proof {
        let tail = v@.skip(host_end as int);
        if store@.len() <= tail.len() {
            assert(tail.take(store@.len() as int) =~= v@.subrange(
                host_end as int,
                host_end + store@.len(),
            ));
        }
    }
    if !found {
        return Err(ValidationError::NotAMediaFile { url: String::from_str(url) });
    }
    let start: usize = host_end + store.len();
    let ghost path = url@.skip(start as int);
    let mut name = String::new();
    let mut i: usize = start;
    proof {
        assert(name@ =~= flattened(path).take(0));
    }
    while i < v.len()
        invariant
            start <= i <= v.len(),
            v@ == url@,
            path == url@.skip(start as int),
            name@ == flattened(path).take(i - start),
        decreases v.len() - i,
    {
        let ghost before = name@;
        if v[i] == '/' {
            name.append("_");
            proof {
                reveal_strlit("_");
            }
        } else {
            name.append(url.substring_char(i, i + 1));
        }
        proof {
            let piece = if v@[i as int] == '/' {
                seq!['_']
            } else {
                url@.subrange(i as int, i + 1)
            };
            assert(name@ == before + piece);
            assert(flattened(path).take(i - start + 1) =~= flattened(path).take(i - start) + piece);
        }
        i = i + 1;
    }
    proof {
        assert(flattened(path).take(i - start) =~= flattened(path));
    }
    Ok(name)
}

} // verus!
