//! One round of the relay: which page is asked for first, what is done with
//! each page, and where the cursor stands at the end.
//!
//! The caller reads the pages and delivers the posts. After each page it
//! asks the round what to do, so that every decision of a round is taken
//! here.

use vstd::prelude::*;
use crate::as2::Page;
use crate::db::State;
use crate::error::{Error, Failure, ParseError};
use crate::link::{append_pairs, pair_views, pairs_fit, url_with_pairs, MAX_URL_LEN};
use crate::utils::{decimal, decimal_text, int_id, int_id_spec, lemma_decimal_text_len};

verus! {

/// The state that the first round starts from: the cursor that the
/// configuration gives, where it gives one that is not negative; else the
/// cursor that was stored; else that of a relay that has never run.
pub fn initial_state(min_id: Option<i64>, stored: Option<State>) -> (state: State)
    ensures
        state == match min_id {
            Some(id) if id >= 0 => State { min_id: id },
            _ => match stored {
                Some(s) => s,
                None => State { min_id: crate::db::UNINITIALIZED },
            },
        },
{
    match min_id {
        Some(id) if id >= 0 => State::new(id),
        _ => match stored {
            Some(s) => s,
            None => State::default(),
        },
    }
}

/// The address that stands for the standard input.
pub open spec fn stdin_uri() -> Seq<char> {
    "stdio://in"@
}

/// The query of the request for the first page of a round: the cursor as
/// `min_id`, unless the round fast-forwards; the bound as `max_id`, where
/// there is one; and `page=true`.
pub open spec fn feed_pairs(state: State, max_id: Option<i64>) -> Seq<(Seq<char>, Seq<char>)> {
    (if state.min_id >= 0 {
        seq![("min_id"@, decimal_text(state.min_id as int))]
    } else {
        Seq::<(Seq<char>, Seq<char>)>::empty()
    }) + (match max_id {
        Some(id) => seq![("max_id"@, decimal_text(id as int))],
        None => Seq::<(Seq<char>, Seq<char>)>::empty(),
    }) + seq![("page"@, "true"@)]
}

/// The address of the first page of a round: the standard input where no
/// feed is given, else the address of the feed with the query of the round.
pub open spec fn first_uri(state: State, feed: Option<Seq<char>>, max_id: Option<i64>) -> Result<
    Seq<char>,
    Failure,
> {
    match feed {
        None => Ok(stdin_uri()),
        Some(base) => if base.len() > MAX_URL_LEN {
            Err(Failure::Parse(ParseError::InvalidUrl))
        } else {
            match url_with_pairs(base, feed_pairs(state, max_id)) {
                Some(uri) => Ok(uri),
                None => Err(Failure::Parse(ParseError::InvalidUrl)),
            }
        },
    }
}

/// Whether `r` is `want`, texts being taken by their characters.
pub open spec fn is_uri(r: Result<String, Error>, want: Result<Seq<char>, Failure>) -> bool {
    match want {
        Ok(uri) => r is Ok && r->Ok_0@ == uri,
        Err(failure) => r is Err && r->Err_0@ == failure,
    }
}

/// The query of the request for the first page of a round.
pub fn feed_query(state: &State, max_id: Option<i64>) -> (pairs: Vec<(String, String)>)
    ensures
        pair_views(pairs@) == feed_pairs(*state, max_id),
        pairs_fit(pairs@),
{
    let mut pairs: Vec<(String, String)> = Vec::new();
    proof {
        reveal_strlit("min_id");
        reveal_strlit("max_id");
        reveal_strlit("page");
        reveal_strlit("true");
        lemma_decimal_text_len(state.min_id);
    }
    if state.min_id >= 0 {
        pairs.push((String::from_str("min_id"), decimal(state.min_id)));
    }
    match max_id {
        Some(id) => {
            proof {
                lemma_decimal_text_len(id);
            }
            pairs.push((String::from_str("max_id"), decimal(id)));
        },
        None => {},
    }
    pairs.push((String::from_str("page"), String::from_str("true")));
    assert(pair_views(pairs@) =~= feed_pairs(*state, max_id));
    pairs
}

/// The address of the first page of a round. An address of the feed that is
/// no absolute URL, or longer than any address that is handed on, is
/// refused.
pub fn feed_uri(state: &State, feed: Option<&str>, max_id: Option<i64>) -> (r: Result<
    String,
    Error,
>)
    ensures
        is_uri(
            r,
            first_uri(
                *state,
                match feed {
                    Some(base) => Some(base@),
                    None => None,
                },
                max_id,
            ),
        ),
{
    match feed {
        None => Ok(String::from_str("stdio://in")),
        Some(base) => {
            if base.unicode_len() > MAX_URL_LEN {
                return Err(Error::Parse(ParseError::InvalidUrl));
            }
            let pairs = feed_query(state, max_id);
            match append_pairs(base, &pairs) {
                Some(uri) => Ok(uri),
                None => Err(Error::Parse(ParseError::InvalidUrl)),
            }
        },
    }
}

/// What the caller does with a page.
#[derive(Debug, Clone, Copy, PartialEq, Eq, Structural)]
pub enum PageStep {
    /// Nothing, and the round is over.
    Stop,
    /// Deliver its posts, then report back.
    Deliver,
}

/// A round as a value.
pub struct RoundView {
    /// Where the cursor stands: at the newest post of the last page that
    /// was delivered, or where the round started.
    pub cursor: i64,
    /// The integer id of the newest post of the page that is being
    /// delivered.
    pub awaiting: Option<i64>,
    /// Whether the round only looks up the newest post.
    pub fast_forward: bool,
    /// Whether the page before a delivered page is asked for.
    pub follow: bool,
    /// Whether the round is over.
    pub over: bool,
}

/// A round that starts from `state`. A round that starts from the cursor
/// of a relay that has never run fast-forwards. Pages are followed where
/// they come from a feed and following is not switched off: the standard
/// input holds one page, which is all there is.
pub open spec fn round_of(state: State, from_feed: bool, no_follow_paging: bool) -> RoundView {
    RoundView {
        cursor: state.min_id,
        awaiting: None,
        fast_forward: state.min_id < 0,
        follow: from_feed && !no_follow_paging,
        over: false,
    }
}

/// The id of the newest activity of a page, which is its first.
pub open spec fn newest_id(page: Page) -> Option<Seq<char>> {
    if page.ordered_items@.len() == 0 {
        None
    } else {
        Some(page.ordered_items@[0].id@)
    }
}

/// The round after a page was read, and what is done with the page. A page
/// without posts ends the round. In a round that fast-forwards the first
/// page moves the cursor to its newest post and ends the round, and nothing
/// is delivered. Any other page is delivered, once the integer id of its
/// newest post is known. A page whose newest post has no integer id is
/// refused and ends the round. A round that is over takes no page.
pub open spec fn after_page(round: RoundView, newest: Option<Seq<char>>) -> (
    RoundView,
    Result<PageStep, ParseError>,
) {
    if round.over {
        (round, Ok(PageStep::Stop))
    } else {
        match newest {
            None => (RoundView { over: true, awaiting: None, ..round }, Ok(PageStep::Stop)),
            Some(id) => match int_id_spec(id) {
                Err(e) => (RoundView { over: true, awaiting: None, ..round }, Err(e)),
                Ok(n) => if round.fast_forward {
                    (
                        RoundView {
                            cursor: if n > round.cursor {
                                n
                            } else {
                                round.cursor
                            },
                            over: true,
                            awaiting: None,
                            ..round
                        },
                        Ok(PageStep::Stop),
                    )
                } else {
                    (RoundView { awaiting: Some(n), ..round }, Ok(PageStep::Deliver))
                },
            },
        }
    }
}

/// The round after the page in delivery was delivered: the cursor stands at
/// the newest post of the page, unless it stood further on already, and the
/// round is over unless pages are followed.
pub open spec fn after_delivery(round: RoundView) -> RoundView {
    match round.awaiting {
        None => round,
        Some(n) => RoundView {
            cursor: if n > round.cursor {
                n
            } else {
                round.cursor
            },
            awaiting: None,
            over: !round.follow,
            ..round
        },
    }
}

/// A round that fast-forwards reads one page and never has a page
/// delivered.
pub proof fn lemma_fast_forward_delivers_nothing(
    state: State,
    from_feed: bool,
    no_follow_paging: bool,
    newest: Option<Seq<char>>,
)
    requires
        state.min_id < 0,
    ensures
        after_page(round_of(state, from_feed, no_follow_paging), newest).1 != Ok::<
            PageStep,
            ParseError,
        >(PageStep::Deliver),
        after_page(round_of(state, from_feed, no_follow_paging), newest).0.over,
{
}

/// A round that starts from a cursor that was stored asks the feed for
/// nothing at or below it: the first request of the round carries the
/// cursor as `min_id`, written so that it reads back as the cursor.
pub proof fn lemma_round_asks_above_cursor(state: State, max_id: Option<i64>)
    requires
        state.min_id >= 0,
    ensures
        feed_pairs(state, max_id)[0] == ("min_id"@, decimal_text(state.min_id as int)),
        crate::utils::all_digits(decimal_text(state.min_id as int)),
        crate::utils::decimal_value(decimal_text(state.min_id as int)) == state.min_id,
{
    crate::utils::lemma_digits_round_trip(state.min_id as nat);
}

/// The standard input is read once: a page from it is never followed by
/// another.
pub proof fn lemma_static_input_is_one_page(state: State, no_follow_paging: bool, n: i64)
    ensures
        after_delivery(
            RoundView { awaiting: Some(n), ..round_of(state, false, no_follow_paging) },
        ).over,
{
}

/// A round moves the cursor only when a page was delivered, and then to
/// the integer id of the newest post of the page, where that is further
/// on: a page that is refused, or whose delivery is not reported, leaves
/// the cursor where it was.
pub proof fn lemma_cursor_moves_with_pages(round: RoundView, newest: Option<Seq<char>>)
    requires
        !round.over,
        !round.fast_forward,
    ensures
        after_page(round, newest).0.cursor == round.cursor,
        after_page(round, newest).1 == Ok::<PageStep, ParseError>(PageStep::Deliver) ==> newest
            is Some && int_id_spec(newest->0) is Ok && after_delivery(
            after_page(round, newest).0,
        ).cursor == if int_id_spec(newest->0)->Ok_0 > round.cursor {
            int_id_spec(newest->0)->Ok_0
        } else {
            round.cursor
        },
{
}

/// The cursor never falls in a round: no page and no delivery moves it
/// back.
pub proof fn lemma_cursor_never_falls(round: RoundView, newest: Option<Seq<char>>)
    ensures
        after_page(round, newest).0.cursor >= round.cursor,
        after_delivery(round).cursor >= round.cursor,
{
}

/// One round of the relay.
pub struct Round {
    cursor: i64,
    awaiting: Option<i64>,
    fast_forward: bool,
    follow: bool,
    over: bool,
}

impl View for Round {
    type V = RoundView;

    closed spec fn view(&self) -> RoundView {
        RoundView {
            cursor: self.cursor,
            awaiting: self.awaiting,
            fast_forward: self.fast_forward,
            follow: self.follow,
            over: self.over,
        }
    }
}

impl Round {
    /// A round that starts from `state`. `from_feed` says whether the pages
    /// come from a feed, `no_follow_paging` whether only one page is read.
    pub fn begin(state: &State, from_feed: bool, no_follow_paging: bool) -> (round: Self)
        ensures
            round@ == round_of(*state, from_feed, no_follow_paging),
    {
        Round {
            cursor: state.min_id,
            awaiting: None,
            fast_forward: state.min_id < 0,
            follow: from_feed && !no_follow_paging,
            over: false,
        }
    }

    /// Takes in a page that was read and accepted, and says what is done
    /// with it.
    pub fn on_page(&mut self, page: &Page) -> (r: Result<PageStep, ParseError>)
        ensures
            final(self)@ == after_page(old(self)@, newest_id(*page)).0,
            r == after_page(old(self)@, newest_id(*page)).1,
    {
        if self.over {
            return Ok(PageStep::Stop);
        }
        if page.ordered_items.len() == 0 {
            self.over = true;
            self.awaiting = None;
            return Ok(PageStep::Stop);
        }
        match int_id(page.ordered_items[0].id.as_str()) {
            Err(e) => {
                self.over = true;
                self.awaiting = None;
                Err(e)
            },
            Ok(n) => {
                if self.fast_forward {
                    if n > self.cursor {
                        self.cursor = n;
                    }
                    self.over = true;
                    self.awaiting = None;
                    Ok(PageStep::Stop)
                } else {
                    self.awaiting = Some(n);
                    Ok(PageStep::Deliver)
                }
            },
        }
    }

    /// Takes in that the page in delivery was delivered, and says whether
    /// another page is to be read.
    pub fn delivered(&mut self) -> (more: bool)
        ensures
            final(self)@ == after_delivery(old(self)@),
            more == !final(self)@.over,
    {
        match self.awaiting {
            None => {},
            Some(n) => {
                if n > self.cursor {
                    self.cursor = n;
                }
                self.awaiting = None;
                self.over = !self.follow;
            },
        }
        !self.over
    }

    /// Whether the round is over.
    pub fn is_over(&self) -> (over: bool)
        ensures
            over == self@.over,
    {
        self.over
    }

    /// The state to store: the cursor as it stands.
    pub fn state(&self) -> (state: State)
        ensures
            state.min_id == self@.cursor,
    {
        State::new(self.cursor)
    }
}

} // verus!
