//! Addresses: what the `url` crate makes of a text.

use vstd::prelude::*;
use url::Url;
use crate::text::opt_view;

verus! {

/// The longest address, in characters, that is handed to the `url` crate: it
/// counts the bytes of an address with 32 bits.
pub const MAX_URL_LEN: usize = 0x100_0000;

/// The longest key or value, in characters, of a query pair that is appended
/// to an address.
pub const MAX_PAIR_LEN: usize = 0x1000;

/// The most query pairs that are appended to an address.
pub const MAX_PAIRS: usize = 16;

/// The address that `url` parses from `text`, written out again, or `None`
/// where `text` is no absolute URL.
pub uninterp spec fn parsed_url(text: Seq<char>) -> Option<Seq<char>>;

/// The address that `url` parses from `base` with `pairs` appended to its
/// query in order, written out, or `None` where `base` is no absolute URL.
pub uninterp spec fn url_with_pairs(base: Seq<char>, pairs: Seq<(Seq<char>, Seq<char>)>) -> Option<
    Seq<char>,
>;

/// Query pairs with their texts taken by their characters.
pub open spec fn pair_views(pairs: Seq<(String, String)>) -> Seq<(Seq<char>, Seq<char>)> {
    pairs.map_values(|p: (String, String)| (p.0@, p.1@))
}

/// Whether the pairs are few and short enough to be appended to an address.
pub open spec fn pairs_fit(pairs: Seq<(String, String)>) -> bool {
    &&& pairs.len() <= MAX_PAIRS
    &&& forall|i: int|
        0 <= i < pairs.len() ==> (#[trigger] pairs[i]).0@.len() <= MAX_PAIR_LEN
            && pairs[i].1@.len() <= MAX_PAIR_LEN
}

/// `url::Url::parse`, and `String::from` on its result: the parsed address
/// written out, or `None` where the crate reports an error.
#[verifier::external_body]
pub(crate) fn parse_url(text: &str) -> (address: Option<String>)
    ensures
        opt_view(address) == parsed_url(text@),
{
    Url::parse(text).ok().map(String::from)
}

/// `url::Url::parse`, then `query_pairs_mut` and `extend_pairs` on the
/// result: the parsed address with `pairs` appended to its query, written
/// out, or `None` where the crate cannot parse `base`. The bounds keep every
/// position in the address within the 32 bits that the crate counts with.
#[verifier::external_body]
pub(crate) fn append_pairs(base: &str, pairs: &Vec<(String, String)>) -> (address: Option<String>)
    requires
        base@.len() <= MAX_URL_LEN,
        pairs_fit(pairs@),
    ensures
        opt_view(address) == url_with_pairs(base@, pair_views(pairs@)),
{
    Url::parse(base).ok().map(|mut url| {
        url.query_pairs_mut().extend_pairs(pairs.iter().map(|p| (p.0.as_str(), p.1.as_str())));
        String::from(url)
    })
}

} // verus!
