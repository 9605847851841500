//! A post as a feed of items describes it: a body, and media that are laid
//! out as one item or as a group.

use vstd::prelude::*;
use crate::error::{Fault, ValidationError};
use crate::text::same;

verus! {

/// A post that is ready to be sent.
#[derive(Debug, Clone, PartialEq, Eq)]
pub struct Post {
    /// Id of the post.
    pub id: String,
    /// The text of the post, ready to be sent.
    pub body: String,
    /// What is attached to the post.
    pub media: Option<Media>,
    /// How the post relates to others.
    pub rel: Vec<Rel>,
    /// Where the post is shown.
    pub link: Option<String>,
}

/// What is attached to a post, and how it is laid out.
#[derive(Debug, Clone, PartialEq, Eq)]
pub struct Media {
    pub layout: MediaLayout,
    pub items: Vec<MediaItem>,
}

/// One file that is attached to a post.
#[derive(Debug, Clone, PartialEq, Eq)]
pub struct MediaItem {
    /// Where the file is.
    pub uri: String,
    /// What the file is: an image, a video or an audio.
    pub medium: MediaMedium,
    /// Where the file is shown.
    pub link: Option<String>,
}

/// How the media of a post are shown.
#[derive(Debug, Clone, Copy, PartialEq, Eq, Structural)]
pub enum MediaLayout {
    /// One item.
    Single,
    /// Several items that are shown as one album.
    Grouped,
    /// Several items that are shown one by one.
    Discrete,
}

/// What a file is.
#[derive(Debug, Clone, Copy, PartialEq, Eq, Structural)]
pub enum MediaMedium {
    Image,
    Video,
    Audio,
}

/// The medium that a name stands for, or the fault of a name that stands
/// for none.
pub open spec fn medium_named(name: Seq<char>) -> Result<MediaMedium, Fault> {
    if name == "image"@ {
        Ok(MediaMedium::Image)
    } else if name == "video"@ {
        Ok(MediaMedium::Video)
    } else if name == "audio"@ {
        Ok(MediaMedium::Audio)
    } else {
        Err(Fault::UnsupportedMediaType { media_type: name })
    }
}

/// Whether `r` is `want`, its error being taken by its view.
pub open spec fn is_medium(
    r: Result<MediaMedium, ValidationError>,
    want: Result<MediaMedium, Fault>,
) -> bool {
    match want {
        Ok(m) => r == Ok::<MediaMedium, ValidationError>(m),
        Err(f) => r is Err && r->Err_0@ == f,
    }
}

impl MediaMedium {
    /// The medium that `value` names: `image`, `video` or `audio`.
    pub fn try_from(value: &str) -> (r: Result<Self, ValidationError>)
        ensures
            is_medium(r, medium_named(value@)),
    {
        if same(value, "image") {
            Ok(MediaMedium::Image)
        } else if same(value, "video") {
            Ok(MediaMedium::Video)
        } else if same(value, "audio") {
            Ok(MediaMedium::Audio)
        } else {
            Err(ValidationError::UnsupportedMediaType { media_type: String::from_str(value) })
        }
    }
}

/// How a post relates to another.
#[derive(Debug, Clone, PartialEq, Eq)]
pub enum Rel {
    /// The post answers the post `id`.
    ReplyTo { id: String },
}

} // verus!
