//! Small verified helpers on text, all stated over sequences of characters.

use vstd::prelude::*;

verus! {

/// A text that may be missing, taken by its characters.
pub open spec fn opt_view(text: Option<String>) -> Option<Seq<char>> {
    match text {
        Some(t) => Some(t@),
        None => None,
    }
}

/// Whether `s` begins with `prefix`.
pub open spec fn has_prefix(s: Seq<char>, prefix: Seq<char>) -> bool {
    prefix.len() <= s.len() && s.take(prefix.len() as int) == prefix
}

/// Whether `part` stands in `s` at position `at`.
pub open spec fn occurs_at(s: Seq<char>, part: Seq<char>, at: int) -> bool {
    0 <= at && at + part.len() <= s.len() && s.subrange(at, at + part.len()) == part
}

/// Whether `part` stands somewhere in `s`.
pub open spec fn has_part(s: Seq<char>, part: Seq<char>) -> bool {
    exists|at: int| occurs_at(s, part, at)
}

/// The characters of `s`, in order.
pub fn chars(s: &str) -> (v: Vec<char>)
    ensures
        v@ == s@,
{
    let mut v: Vec<char> = Vec::new();
    for c in it: s.chars()
        invariant
            v@ == it.seq().take(it.index() as int),
            it.seq() == s@,
    {
        v.push(c);
    }
    v
}

/// Whether `part` stands in `s` at position `at`.
pub fn matches_at(s: &Vec<char>, part: &Vec<char>, at: usize) -> (b: bool)
    ensures
        b == occurs_at(s@, part@, at as int),
{
    if at > s.len() || part.len() > s.len() - at {
        return false;
    }
    let mut i: usize = 0;
    while i < part.len()
        invariant
            0 <= i <= part.len(),
            at + part.len() <= s.len(),
            forall|j: int| 0 <= j < i ==> s@[at + j] == part@[j],
        decreases part.len() - i,
    {
        if s[at + i] != part[i] {
            proof {
                let got = s@.subrange(at as int, at + part.len());
                assert(got[i as int] == s@[at + i]);
            }
            return false;
        }
        i = i + 1;
    }
    assert(s@.subrange(at as int, at + part.len()) =~= part@);
    true
}

/// Whether two texts hold the same characters.
pub fn same(a: &str, b: &str) -> (r: bool)
    ensures
        r == (a@ == b@),
{
    let va = chars(a);
    let vb = chars(b);
    if va.len() != vb.len() {
        return false;
    }
    let r = matches_at(&va, &vb, 0);
    proof {
        assert(va@.subrange(0, vb@.len() as int) =~= va@);
    }
    r
}

/// Whether `s` begins with `prefix`.
pub fn starts_with(s: &str, prefix: &str) -> (r: bool)
    ensures
        r == has_prefix(s@, prefix@),
{
    let vs = chars(s);
    let vp = chars(prefix);
    let r = matches_at(&vs, &vp, 0);
    proof {
        if vp@.len() <= vs@.len() {
            assert(vs@.subrange(0, vp@.len() as int) =~= vs@.take(vp@.len() as int));
        }
    }
    r
}

/// Whether `part` stands somewhere in `s`.
pub fn contains(s: &str, part: &str) -> (r: bool)
    ensures
        r == has_part(s@, part@),
{
    let vs = chars(s);
    let vp = chars(part);
    if vp.len() > vs.len() {
        return false;
    }
    let last: usize = vs.len() - vp.len();
    let mut at: usize = 0;
    while at < last
        invariant
            0 <= at <= last,
            last == vs.len() - vp.len(),
            vs@ == s@,
            vp@ == part@,
            forall|k: int| 0 <= k < at ==> !occurs_at(s@, part@, k),
        decreases last - at,
    {
        if matches_at(&vs, &vp, at) {
            return true;
        }
        at = at + 1;
    }
    matches_at(&vs, &vp, last)
}

/// How many characters at the front of `s` are neither `:` nor `/`.
pub open spec fn name_run(s: Seq<char>) -> int
    decreases s.len(),
{
    if s.len() > 0 && s[0] != ':' && s[0] != '/' {
        1 + name_run(s.drop_first())
    } else {
        0
    }
}

/// How many characters at the front of `s` are not `/`.
pub open spec fn segment_len(s: Seq<char>) -> int
    decreases s.len(),
{
    if s.len() > 0 && s[0] != '/' {
        1 + segment_len(s.drop_first())
    } else {
        0
    }
}

/// A run of characters that are neither `:` nor `/` and that ends at one
/// of the two, or at the end, is the whole run.
pub proof fn lemma_name_run(s: Seq<char>, k: int)
    requires
        0 <= k <= s.len(),
        forall|i: int| 0 <= i < k ==> s[i] != ':' && s[i] != '/',
        k < s.len() ==> s[k] == ':' || s[k] == '/',
    ensures
        name_run(s) == k,
    decreases k,
{
    if k > 0 {
        let rest = s.drop_first();
        assert forall|i: int| 0 <= i < k - 1 implies rest[i] != ':' && rest[i] != '/' by {
            assert(rest[i] == s[i + 1]);
        }
        lemma_name_run(rest, k - 1);
    }
}

/// A run of characters that are not `/` and that ends at a `/`, or at the
/// end, is the whole run.
pub proof fn lemma_segment_len(s: Seq<char>, k: int)
    requires
        0 <= k <= s.len(),
        forall|i: int| 0 <= i < k ==> s[i] != '/',
        k < s.len() ==> s[k] == '/',
    ensures
        segment_len(s) == k,
    decreases k,
{
    if k > 0 {
        let rest = s.drop_first();
        assert forall|i: int| 0 <= i < k - 1 implies rest[i] != '/' by {
            assert(rest[i] == s[i + 1]);
        }
        lemma_segment_len(rest, k - 1);
    }
}

/// Where the run of characters that are neither `:` nor `/` ends that
/// begins at `from`.
pub fn scan_name(v: &Vec<char>, from: usize) -> (end: usize)
    requires
        from <= v.len(),
    ensures
        from <= end <= v.len(),
        end - from == name_run(v@.skip(from as int)),
{
    let mut end: usize = from;
    while end < v.len() && v[end] != ':' && v[end] != '/'
        invariant
            from <= end <= v.len(),
            forall|i: int| from <= i < end ==> v@[i] != ':' && v@[i] != '/',
        decreases v.len() - end,
    {
        end = end + 1;
    }
    proof {
        lemma_name_run(v@.skip(from as int), end - from);
    }
    end
}

/// Where the run of characters that are not `/` ends that begins at `from`.
pub fn scan_segment(v: &Vec<char>, from: usize) -> (end: usize)
    requires
        from <= v.len(),
    ensures
        from <= end <= v.len(),
        end - from == segment_len(v@.skip(from as int)),
{
    let mut end: usize = from;
    while end < v.len() && v[end] != '/'
        invariant
            from <= end <= v.len(),
            forall|i: int| from <= i < end ==> v@[i] != '/',
        decreases v.len() - end,
    {
        end = end + 1;
    }
    proof {
        lemma_segment_len(v@.skip(from as int), end - from);
    }
    end
}

} // verus!
