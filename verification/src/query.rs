//! Looking up the outbox of an account: what is asked of the account's
//! host, and which of the links in its answer leads to the profile.

use vstd::prelude::*;
use crate::error::ConfigError;
use crate::text::{chars, same};

verus! {

/// The type of the profile that is looked for.
pub open spec fn activity_type() -> Seq<char> {
    "application/activity+json"@
}

/// One link of the answer to a lookup.
#[derive(Debug, Clone, PartialEq, Eq)]
pub struct WebFingerLink {
    pub rel: String,
    pub kind: String,
    pub href: String,
}

/// Whether a link leads to the profile: its type is the activity type and
/// it points to the account itself.
pub open spec fn is_profile_link(link: WebFingerLink) -> bool {
    link.kind@ == activity_type() && link.rel@ == "self"@
}

/// Where the first link that leads to the profile stands in `links`, or
/// the length of `links` where none does.
pub open spec fn first_profile_link(links: Seq<WebFingerLink>) -> int
    decreases links.len(),
{
    if links.len() == 0 {
        0
    } else if is_profile_link(links[0]) {
        0
    } else {
        1 + first_profile_link(links.drop_first())
    }
}

/// A link that leads to the profile and has none before it that does is
/// the first; where no link does, the length of the list stands for it.
pub proof fn lemma_first_profile_link(links: Seq<WebFingerLink>, at: int)
    requires
        0 <= at <= links.len(),
        forall|k: int| 0 <= k < at ==> !is_profile_link(links[k]),
        at < links.len() ==> is_profile_link(links[at]),
    ensures
        first_profile_link(links) == at,
    decreases at,
{
    if at > 0 {
        let rest = links.drop_first();
        assert forall|k: int| 0 <= k < at - 1 implies !is_profile_link(rest[k]) by {
            assert(rest[k] == links[k + 1]);
        }
        lemma_first_profile_link(rest, at - 1);
    }
}

/// The address of the profile of an account: the target of the first link
/// in the answer to the lookup that leads to the profile. An answer
/// without such a link is refused.
pub fn profile_link(links: &Vec<WebFingerLink>) -> (r: Result<String, ConfigError>)
    ensures
        match r {
            Ok(href) => first_profile_link(links@) < links@.len() && href@
                == links@[first_profile_link(links@)].href@,
            Err(e) => first_profile_link(links@) == links@.len() && e
                == ConfigError::NoProfileLink,
        },
{
    let mut i: usize = 0;
    while i < links.len()
        invariant
            0 <= i <= links.len(),
            forall|k: int| 0 <= k < i ==> !is_profile_link(links@[k]),
        decreases links.len() - i,
    {
        if same(links[i].kind.as_str(), "application/activity+json") && same(
            links[i].rel.as_str(),
            "self",
        ) {
            proof {
                lemma_first_profile_link(links@, i as int);
            }
            return Ok(links[i].href.clone());
        }
        i = i + 1;
    }
    proof {
        lemma_first_profile_link(links@, i as int);
    }
    Err(ConfigError::NoProfileLink)
}

/// The resource that a lookup names: the account, marked as one.
pub fn resource(acct: &str) -> (r: String)
    ensures
        r@ == "acct:"@ + acct@,
{
    let mut r = String::from_str("acct:");
    r.append(acct);
    r
}

/// The path of a lookup.
pub open spec fn lookup_path() -> Seq<char> {
    ".well-known/webfinger"@
}

/// The path of a lookup on a host whose address has the path `base`: the
/// path of a lookup below `base`, with a `/` between the two where `base`
/// is not empty and does not end in one.
pub open spec fn webfinger_path_of(base: Seq<char>) -> Seq<char> {
    if base.len() == 0 || base.last() == '/' {
        base + lookup_path()
    } else {
        base + seq!['/'] + lookup_path()
    }
}

/// The path of a lookup on a host whose address has the path `base`.
pub fn webfinger_path(base: &str) -> (path: String)
    ensures
        path@ == webfinger_path_of(base@),
{
    let v = chars(base);
    let mut path = String::from_str(base);
    if v.len() > 0 && v[v.len() - 1] != '/' {
        path.append("/");
        proof {
            reveal_strlit("/");
        }
    }
    path.append(".well-known/webfinger");
    assert(path@ =~= webfinger_path_of(base@));
    path
}

} // verus!
