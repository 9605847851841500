//! The options of the relay, and how they are put in order before a round.

use vstd::prelude::*;
use crate::error::ConfigError;
use crate::text::{
    chars, has_prefix, name_run, opt_view, scan_name, scan_segment, segment_len, starts_with,
};

verus! {

/// Where the pages come from.
#[derive(Debug, Clone, Copy, PartialEq, Eq, Structural)]
pub enum CliInput {
    /// From the standard input.
    Stdin,
    /// From the address of the outbox.
    Fetch,
    /// From the outbox that the account's host names for the account.
    QueryFetch,
}

/// Where the posts go.
#[derive(Debug, Clone, Copy, PartialEq, Eq, Structural)]
pub enum CliOutput {
    /// To the standard output.
    Print,
    /// To the channel.
    TgSend,
}

/// The options of the relay.
#[derive(Debug, Clone, PartialEq, Eq)]
pub struct Cli {
    /// Where the pages come from; the standard input if not given.
    pub input: Option<CliInput>,
    /// The address of the outbox or the host of the account, as `input` asks.
    pub host: Option<String>,
    /// The account whose outbox is looked up.
    pub acct: Option<String>,
    /// Where the posts go; the standard output if not given.
    pub output: Option<CliOutput>,
    /// The channel that the posts are sent to.
    pub tg_chan: Option<String>,
    /// Where the state is kept between rounds.
    pub file: Option<String>,
    /// Seconds between two rounds; one round if not given.
    pub loop_interval: Option<u64>,
    /// The cursor that the first round starts from, in place of the stored
    /// one.
    pub min_id: Option<i64>,
    /// The integer id above which no post is asked for.
    pub max_id: Option<i64>,
    /// Whether only one page is read in a round.
    pub no_follow_paging: bool,
}

/// A channel with the `@` that leads it.
pub open spec fn with_at(chan: Seq<char>) -> Seq<char> {
    if has_prefix(chan, "@"@) {
        chan
    } else {
        "@"@ + chan
    }
}

/// Whether pages are fetched from a host.
pub open spec fn fetches(input: Option<CliInput>) -> bool {
    input == Some(CliInput::Fetch) || input == Some(CliInput::QueryFetch)
}

/// A host with its scheme: `https://` where it names none of the two that
/// are known.
pub open spec fn with_scheme(host: Seq<char>) -> Seq<char> {
    if has_prefix(host, "https://"@) || has_prefix(host, "http://"@) {
        host
    } else {
        "https://"@ + host
    }
}

/// `s` without the scheme that leads it: one character or more, none of
/// them `:` or `/`, and then `://`.
pub open spec fn without_scheme(s: Seq<char>) -> Seq<char> {
    let k = name_run(s);
    if k > 0 && has_prefix(s.skip(k), seq![':', '/', '/']) {
        s.skip(k + 3)
    } else {
        s
    }
}

/// The domain of a host: what follows its scheme, up to the first `/`.
pub open spec fn domain_of(host: Seq<char>) -> Seq<char> {
    let rest = without_scheme(host);
    rest.take(segment_len(rest))
}

/// An account without the `@` that may lead it.
pub open spec fn bare_acct(acct: Seq<char>) -> Seq<char> {
    if has_prefix(acct, "@"@) {
        acct.skip(1)
    } else {
        acct
    }
}

/// An account with its domain: that of the host where it names none.
pub open spec fn with_domain(acct: Seq<char>, host: Seq<char>) -> Seq<char> {
    if bare_acct(acct).contains('@') {
        bare_acct(acct)
    } else {
        bare_acct(acct) + seq!['@'] + domain_of(host)
    }
}

/// The account as it stands after cleaning, given the host as it stands
/// after cleaning: without a host, an account that names no domain stays
/// without one.
pub open spec fn clean_acct(acct: Option<Seq<char>>, host: Option<Seq<char>>) -> Option<Seq<char>> {
    match acct {
        Some(a) => match host {
            Some(h) => Some(with_domain(a, h)),
            None => Some(bare_acct(a)),
        },
        None => None,
    }
}

/// The host as it stands after cleaning.
pub open spec fn clean_host(input: Option<CliInput>, host: Option<Seq<char>>) -> Option<
    Seq<char>,
> {
    match host {
        Some(h) => if fetches(input) {
            Some(with_scheme(h))
        } else {
            Some(h)
        },
        None => None,
    }
}

/// What is missing in the options: the host where pages are fetched, the
/// host or the account where the outbox is looked up.
pub open spec fn missing(input: Option<CliInput>, host: bool, acct: bool) -> Result<
    (),
    ConfigError,
> {
    if input == Some(CliInput::Fetch) && !host {
        Err(ConfigError::MissingHost)
    } else if input == Some(CliInput::QueryFetch) && !(host && acct) {
        Err(ConfigError::MissingHostOrAccount)
    } else {
        Ok(())
    }
}

fn prefixed(prefix: &str, text: &str) -> (joined: String)
    ensures
        joined@ == prefix@ + text@,
{
    let mut joined = String::from_str(prefix);
    joined.append(text);
    joined
}

fn add_at(chan: &str) -> (r: String)
    ensures
        r@ == with_at(chan@),
{
    if starts_with(chan, "@") {
        String::from_str(chan)
    } else {
        prefixed("@", chan)
    }
}

fn add_scheme(host: &str) -> (r: String)
    ensures
        r@ == with_scheme(host@),
{
    if starts_with(host, "https://") || starts_with(host, "http://") {
        String::from_str(host)
    } else {
        prefixed("https://", host)
    }
}

/// The domain of `host`.
pub fn domain(host: &str) -> (r: String)
    ensures
        r@ == domain_of(host@),
{
    let v = chars(host);
    proof {
        assert(v@.skip(0) =~= v@);
    }
    let k = scan_name(&v, 0);
    let scheme = k > 0 && v.len() - k >= 3 && v[k] == ':' && v[k + 1] == '/' && v[k + 2] == '/';
    proof {
        let tail = v@.skip(k as int);
        let mark = seq![':', '/', '/'];
        if scheme {
            assert(tail.take(3) =~= mark);
        } else if k > 0 && has_prefix(tail, mark) {
            assert(tail.take(3)[0] == v@[k as int]);
            assert(tail.take(3)[1] == v@[k + 1]);
            assert(tail.take(3)[2] == v@[k + 2]);
        }
    }
    let start: usize = if scheme {
        k + 3
    } else {
        0
    };
    let ghost rest = without_scheme(host@);
    assert(rest =~= v@.skip(start as int));
    let end = scan_segment(&v, start);
    proof {
        assert(rest.take(end - start) =~= host@.subrange(start as int, end as int));
    }
    String::from_str(host.substring_char(start, end))
}

fn has_at(text: &str) -> (b: bool)
    ensures
        b == text@.contains('@'),
{
    let v = chars(text);
    let mut i: usize = 0;
    while i < v.len()
        invariant
            0 <= i <= v.len(),
            v@ == text@,
            forall|k: int| 0 <= k < i ==> v@[k] != '@',
        decreases v.len() - i,
    {
        if v[i] == '@' {
            return true;
        }
        i = i + 1;
    }
    false
}

fn strip_at(acct: &str) -> (r: &str)
    ensures
        r@ == bare_acct(acct@),
{
    if starts_with(acct, "@") {
        proof {
            reveal_strlit("@");
        }
        let n = acct.unicode_len();
        let r = acct.substring_char(1, n);
        assert(r@ =~= acct@.skip(1));
        r
    } else {
        acct
    }
}

fn add_domain(acct: &str, host: &str) -> (r: String)
    ensures
        r@ == with_domain(acct@, host@),
{
    let bare = strip_at(acct);
    if has_at(bare) {
        String::from_str(bare)
    } else {
        let mut r = String::from_str(bare);
        r.append("@");
        proof {
            reveal_strlit("@");
        }
        let d = domain(host);
        r.append(d.as_str());
        assert(r@ =~= with_domain(acct@, host@));
        r
    }
}

impl Cli {
    /// Whether pages are fetched from a host, and not read from the standard
    /// input.
    pub fn from_feed(&self) -> (b: bool)
        ensures
            b == fetches(self.input),
    {
        match self.input {
            Some(CliInput::Fetch) => true,
            Some(CliInput::QueryFetch) => true,
            _ => false,
        }
    }

    /// Puts the options in order and says whether they go together. The
    /// channel gets its leading `@`. The host gets a scheme where pages are
    /// fetched from it. The account loses its leading `@` and gets the
    /// domain of the host where it names none and a host is given.
    /// Everything else stays.
    pub fn clean(&mut self) -> (r: Result<(), ConfigError>)
        ensures
            opt_view(final(self).tg_chan) == match old(self).tg_chan {
                Some(chan) => Some(with_at(chan@)),
                None => None,
            },
            opt_view(final(self).host) == clean_host(old(self).input, opt_view(old(self).host)),
            opt_view(final(self).acct) == clean_acct(
                opt_view(old(self).acct),
                clean_host(old(self).input, opt_view(old(self).host)),
            ),
            final(self).input == old(self).input,
            final(self).output == old(self).output,
            final(self).file == old(self).file,
            final(self).loop_interval == old(self).loop_interval,
            final(self).min_id == old(self).min_id,
            final(self).max_id == old(self).max_id,
            final(self).no_follow_paging == old(self).no_follow_paging,
            r == missing(old(self).input, old(self).host is Some, old(self).acct is Some),
    {
        self.tg_chan = match &self.tg_chan {
            Some(chan) => Some(add_at(chan.as_str())),
            None => None,
        };
        let fetch = self.from_feed();
        self.host = match &self.host {
            Some(host) => if fetch {
                Some(add_scheme(host.as_str()))
            } else {
                Some(host.clone())
            },
            None => None,
        };
        self.acct = match &self.acct {
            Some(acct) => {
                let bare = strip_at(acct.as_str());
                if has_at(bare) {
                    Some(String::from_str(bare))
                } else {
                    match &self.host {
                        Some(host) => Some(add_domain(acct.as_str(), host.as_str())),
                        None => Some(String::from_str(bare)),
                    }
                }
            },
            None => None,
        };
        match self.input {
            Some(CliInput::Fetch) => {
                if self.host.is_none() {
                    return Err(ConfigError::MissingHost);
                }
            },
            Some(CliInput::QueryFetch) => {
                if self.host.is_none() || self.acct.is_none() {
                    return Err(ConfigError::MissingHostOrAccount);
                }
            },
            _ => {},
        }
        Ok(())
    }
}

} // verus!
