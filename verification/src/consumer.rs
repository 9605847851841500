//! Which send operation a post with laid-out media calls for.

use vstd::prelude::*;
use crate::cons::{address_views, compose, composed, is_plan, Layout, Planned, SendOp};
use crate::error::{Error, Failure, Fault, ValidationError};
use crate::link::{parse_url, parsed_url};
use crate::post::{MediaItem, MediaLayout, MediaMedium, Post};
use crate::text::opt_view;

verus! {

/// Something that sends posts to a destination.
pub trait Consumer {
    fn send_post(&self, post: &Post) -> Result<(), Error>;
}

/// The address of each item as the `url` crate reads it.
pub open spec fn item_addresses(items: Seq<MediaItem>) -> Seq<Option<Seq<char>>> {
    items.map_values(|i: MediaItem| parsed_url(i.uri@))
}

/// The send operation for a post: a text where it has no media; one file by
/// its medium where the media are laid out as one item, which they then
/// have to be; an album where they are laid out as a group, in which all
/// have to be images. The address of each file has to be an absolute URL.
/// Nothing is said of media that are laid out one by one.
pub open spec fn plan_of(post: Post) -> Result<Planned, Failure> {
    match post.media {
        None => Ok(Planned::Text { body: post.body@ }),
        Some(media) => match media.layout {
            MediaLayout::Single => if media.items@.len() != 1 {
                Err(Failure::Validation(Fault::NotSingle))
            } else {
                composed(
                    Layout::Single(media.items@[0].medium),
                    item_addresses(media.items@),
                    post.body@,
                )
            },
            _ => if !(forall|i: int|
                0 <= i < media.items@.len() ==> (#[trigger] media.items@[i]).medium
                    == MediaMedium::Image) {
                Err(Failure::Validation(Fault::NotAllImages))
            } else {
                composed(Layout::Album, item_addresses(media.items@), post.body@)
            },
        },
    }
}

fn all_images(items: &Vec<MediaItem>) -> (b: bool)
    ensures
        b == (forall|i: int|
            0 <= i < items@.len() ==> (#[trigger] items@[i]).medium == MediaMedium::Image),
{
    let mut i: usize = 0;
    while i < items.len()
        invariant
            0 <= i <= items.len(),
            forall|k: int| 0 <= k < i ==> (#[trigger] items@[k]).medium == MediaMedium::Image,
        decreases items.len() - i,
    {
        match items[i].medium {
            MediaMedium::Image => {},
            _ => {
                return false;
            },
        }
        i = i + 1;
    }
    true
}

fn addresses(items: &Vec<MediaItem>) -> (r: Vec<Option<String>>)
    ensures
        address_views(r@) == item_addresses(items@),
{
    let mut r: Vec<Option<String>> = Vec::new();
    let mut i: usize = 0;
    while i < items.len()
        invariant
            0 <= i <= items.len(),
            r@.len() == i,
            forall|k: int|
                0 <= k < i ==> opt_view(#[trigger] r@[k]) == parsed_url(
                    items@[k].uri@,
                ),
        decreases items.len() - i,
    {
        r.push(parse_url(items[i].uri.as_str()));
        i = i + 1;
    }
    assert(address_views(r@) =~= item_addresses(items@));
    r
}

/// Picks the send operation for a post whose media, if it has any, are laid
/// out as one item or as a group.
pub fn send_plan(post: &Post) -> (r: Result<SendOp, Error>)
    requires
        post.media is Some ==> post.media->0.layout != MediaLayout::Discrete,
    ensures
        is_plan(r, plan_of(*post)),
{
    let media = match &post.media {
        None => {
            return Ok(SendOp::Text { body: post.body.clone() });
        },
        Some(media) => media,
    };
    match media.layout {
        MediaLayout::Single => {
            if media.items.len() != 1 {
                return Err(Error::Validation(ValidationError::NotSingle));
            }
            compose(
                Layout::Single(media.items[0].medium),
                addresses(&media.items),
                post.body.clone(),
            )
        },
        _ => {
            if !all_images(&media.items) {
                return Err(Error::Validation(ValidationError::NotAllImages));
            }
            compose(Layout::Album, addresses(&media.items), post.body.clone())
        },
    }
}

} // verus!
