//! Relays the posts of a federated account's outbox to a chat channel.
//!
//! The crate holds the decisions of that relay: which page to ask for, whether
//! a page is acceptable, how a post's body is rewritten for the destination,
//! which send operation a post calls for, in which order posts are sent and
//! what is remembered between rounds. Transport and storage belong to the
//! caller, which feeds their results back into the state machines found here.
//!
//! A round goes through these modules:
//!
//! - [`cli`] puts the options in order.
//! - [`round`] picks the first address, and after each page says whether
//!   the page is delivered and whether another is read.
//! - [`pro`] says how the page at an address is read, and [`as2`] checks
//!   the page that was read.
//! - [`cons`] queues the posts of a page oldest first, picks the send
//!   operation of each, and records what was sent. [`body`] rewrites the
//!   body of a post on the way.
//! - [`db`] holds the cursor that a round starts from and ends with.
//!
//! [`post`], [`producer`] and [`consumer`] do the same for posts that come
//! from a feed of items. [`query`] helps to look up the outbox of an
//! account. [`utils`], [`text`], [`link`], [`handle`] and [`error`] are what
//! the others share.

pub mod as2;
pub mod body;
pub mod cli;
pub mod cons;
pub mod consumer;
pub mod db;
pub mod error;
pub mod handle;
pub mod link;
pub mod post;
pub mod pro;
pub mod producer;
pub mod query;
pub mod round;
pub mod text;
pub mod utils;
