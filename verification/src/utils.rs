//! The integer id of a post.
//!
//! A post id is an opaque text that ends in a numeric path segment, which the
//! feed may follow with `/activity`. The number orders the posts of an
//! account, and the fetch cursor is one of these numbers.

use vstd::prelude::*;
use crate::error::ParseError;
use crate::text::chars;

verus! {

/// Whether `c` is one of the ten decimal digits.
pub open spec fn is_digit(c: char) -> bool {
    '0' <= c && c <= '9'
}

/// The number that a decimal digit stands for.
pub open spec fn digit_value(c: char) -> int {
    c as int - '0' as int
}

/// Whether every character of `s` is a decimal digit.
pub open spec fn all_digits(s: Seq<char>) -> bool {
    forall|i: int| 0 <= i < s.len() ==> is_digit(#[trigger] s[i])
}

/// The number that a sequence of decimal digits writes, most significant
/// digit first. The empty sequence writes 0.
pub open spec fn decimal_value(s: Seq<char>) -> int
    decreases s.len(),
{
    if s.len() == 0 {
        0
    } else {
        decimal_value(s.drop_last()) * 10 + digit_value(s.last())
    }
}

/// The segment that may follow the number in a post id.
pub open spec fn activity_suffix() -> Seq<char> {
    seq!['/', 'a', 'c', 't', 'i', 'v', 'i', 't', 'y']
}

/// Whether `s` ends with `suffix`.
pub open spec fn ends_with(s: Seq<char>, suffix: Seq<char>) -> bool {
    s.len() >= suffix.len() && s.skip(s.len() - suffix.len()) == suffix
}

/// The id without the `/activity` that may end it.
pub open spec fn id_stem(id: Seq<char>) -> Seq<char> {
    if ends_with(id, activity_suffix()) {
        id.take(id.len() - activity_suffix().len())
    } else {
        id
    }
}

/// Where the longest run of digits that ends `s` begins; `s.len()` when `s`
/// does not end in a digit.
pub open spec fn digit_run_start(s: Seq<char>) -> int
    decreases s.len(),
{
    if s.len() > 0 && is_digit(s.last()) {
        digit_run_start(s.drop_last())
    } else {
        s.len() as int
    }
}

/// The digits of the numeric segment that ends the stem of `id`, if the stem
/// ends in one: a `/` followed by one digit or more up to the end.
pub open spec fn id_digits(id: Seq<char>) -> Option<Seq<char>> {
    let stem = id_stem(id);
    let start = digit_run_start(stem);
    if 0 < start && start < stem.len() && stem[start - 1] == '/' {
        Some(stem.skip(start))
    } else {
        None
    }
}

/// What `int_id` returns for each id.
pub open spec fn int_id_spec(id: Seq<char>) -> Result<i64, ParseError> {
    match id_digits(id) {
        None => Err(ParseError::NoIntegerId),
        Some(digits) => if decimal_value(digits) <= i64::MAX {
            Ok(decimal_value(digits) as i64)
        } else {
            Err(ParseError::IdOutOfRange)
        },
    }
}

/// The longest run of digits that ends `s` is made of digits, and no digit
/// stands before it.
pub proof fn lemma_digit_run(s: Seq<char>)
    ensures
        0 <= digit_run_start(s) <= s.len(),
        all_digits(s.skip(digit_run_start(s))),
        digit_run_start(s) > 0 ==> !is_digit(s[digit_run_start(s) - 1]),
    decreases s.len(),
{
    if s.len() > 0 && is_digit(s.last()) {
        let t = s.drop_last();
        lemma_digit_run(t);
        let k = digit_run_start(t);
        assert forall|i: int| 0 <= i < s.skip(k).len() implies is_digit(#[trigger] s.skip(k)[i]) by {
            if i < t.len() - k {
                assert(s.skip(k)[i] == t.skip(k)[i]);
            }
        }
    }
}

/// A run of digits that ends `s` and has a non-digit before it, or nothing
/// before it, is the longest one.
pub proof fn lemma_digit_run_is(s: Seq<char>, k: int)
    requires
        0 <= k <= s.len(),
        all_digits(s.skip(k)),
        k > 0 ==> !is_digit(s[k - 1]),
    ensures
        digit_run_start(s) == k,
    decreases s.len(),
{
    if k < s.len() {
        assert(s.skip(k)[s.len() - 1 - k] == s.last());
        let t = s.drop_last();
        assert forall|i: int| 0 <= i < t.skip(k).len() implies is_digit(#[trigger] t.skip(k)[i]) by {
            assert(t.skip(k)[i] == s.skip(k)[i]);
        }
        lemma_digit_run_is(t, k);
    }
}

/// The first digits of a number write a number that is no larger.
pub proof fn lemma_decimal_value_bounds(s: Seq<char>, n: int)
    requires
        all_digits(s),
        0 <= n <= s.len(),
    ensures
        0 <= decimal_value(s.take(n)) <= decimal_value(s),
    decreases s.len() - n,
{
    lemma_decimal_value_nonneg(s.take(n));
    if n < s.len() {
        lemma_decimal_value_bounds(s, n + 1);
        assert(s.take(n + 1).drop_last() == s.take(n));
        assert(is_digit(s[n]));
        assert(s.take(n + 1).last() == s[n]);
    } else {
        assert(s.take(n) == s);
    }
}

/// Digits write a number that is not negative.
pub proof fn lemma_decimal_value_nonneg(s: Seq<char>)
    requires
        all_digits(s),
    ensures
        0 <= decimal_value(s),
    decreases s.len(),
{
    if s.len() > 0 {
        assert(is_digit(s.last()));
        assert forall|i: int| 0 <= i < s.drop_last().len() implies is_digit(#[trigger] s.drop_last()[i]) by {
            assert(s.drop_last()[i] == s[i]);
        }
        lemma_decimal_value_nonneg(s.drop_last());
    }
}

/// Whether `id` is some text, a `/`, one digit or more, and then nothing or
/// `/activity`.
pub open spec fn has_numeric_segment(id: Seq<char>) -> bool {
    exists|prefix: Seq<char>, digits: Seq<char>|
        digits.len() > 0 && all_digits(digits) && (id == #[trigger] numbered(prefix, digits) || id
            == numbered(prefix, digits) + activity_suffix())
}

/// The id made of `prefix`, a `/` and `digits`.
pub open spec fn numbered(prefix: Seq<char>, digits: Seq<char>) -> Seq<char> {
    prefix + seq!['/'] + digits
}

/// An id that ends in `/<digits>` or in `/<digits>/activity` has the number
/// that the digits write as its integer id, whatever stands before; the
/// digits must write a number that a cursor can hold.
pub proof fn lemma_int_id_reads_digits(prefix: Seq<char>, digits: Seq<char>)
    requires
        digits.len() > 0,
        all_digits(digits),
        decimal_value(digits) <= i64::MAX,
    ensures
        int_id_spec(numbered(prefix, digits)) == Ok::<i64, ParseError>(
            decimal_value(digits) as i64,
        ),
        int_id_spec(numbered(prefix, digits) + activity_suffix()) == Ok::<i64, ParseError>(
            decimal_value(digits) as i64,
        ),
{
    lemma_id_digits_of_numbered(prefix, digits);
}

/// The digits that are read from an id of either shape are those it was
/// written with.
pub proof fn lemma_id_digits_of_numbered(prefix: Seq<char>, digits: Seq<char>)
    requires
        digits.len() > 0,
        all_digits(digits),
    ensures
        id_digits(numbered(prefix, digits)) == Some(digits),
        id_digits(numbered(prefix, digits) + activity_suffix()) == Some(digits),
{
    let id = numbered(prefix, digits);
    let k = prefix.len() as int + 1;
    assert(is_digit(digits.last()));
    assert(id.last() == digits.last());
    assert(!ends_with(id, activity_suffix())) by {
        if ends_with(id, activity_suffix()) {
            assert(id.skip(id.len() - 9)[8] == 'y');
        }
    }
    assert(id_stem(id) == id);
    assert(id.skip(k) =~= digits);
    assert(id[k - 1] == '/');
    lemma_digit_run_is(id, k);
    let long = id + activity_suffix();
    assert(long.skip(long.len() - 9) =~= activity_suffix());
    assert(long.take(long.len() - 9) =~= id);
    assert(id_stem(long) == id);
}

/// An id of neither shape has no integer id.
pub proof fn lemma_int_id_needs_digits(id: Seq<char>)
    requires
        !has_numeric_segment(id),
    ensures
        int_id_spec(id) == Err::<i64, ParseError>(ParseError::NoIntegerId),
{
    if id_digits(id) is Some {
        let stem = id_stem(id);
        let start = digit_run_start(stem);
        lemma_digit_run(stem);
        let prefix = stem.take(start - 1);
        let digits = stem.skip(start);
        assert(numbered(prefix, digits) =~= stem);
        if ends_with(id, activity_suffix()) {
            assert(id =~= stem + id.skip(id.len() - 9));
        }
        assert(id == numbered(prefix, digits) || id == numbered(prefix, digits)
            + activity_suffix());
    }
}

fn is_digit_char(c: char) -> (b: bool)
    ensures
        b == is_digit(c),
{
    '0' <= c && c <= '9'
}

fn ends_with_activity(v: &Vec<char>) -> (b: bool)
    ensures
        b == ends_with(v@, activity_suffix()),
{
    let n = v.len();
    if n < 9 {
        return false;
    }
    let b = v[n - 9] == '/' && v[n - 8] == 'a' && v[n - 7] == 'c' && v[n - 6] == 't' && v[n - 5]
        == 'i' && v[n - 4] == 'v' && v[n - 3] == 'i' && v[n - 2] == 't' && v[n - 1] == 'y';
    proof {
        let tail = v@.skip(n - 9);
        let want = activity_suffix();
        if b {
            assert(tail =~= want);
        } else {
            if tail == want {
                assert(tail[0] == v@[n - 9]);
                assert(tail[1] == v@[n - 8]);
                assert(tail[2] == v@[n - 7]);
                assert(tail[3] == v@[n - 6]);
                assert(tail[4] == v@[n - 5]);
                assert(tail[5] == v@[n - 4]);
                assert(tail[6] == v@[n - 3]);
                assert(tail[7] == v@[n - 2]);
                assert(tail[8] == v@[n - 1]);
            }
        }
    }
    b
}

/// The integer id of the post or activity that `guid` names.
pub fn int_id(guid: &str) -> (r: Result<i64, ParseError>)
    ensures
        r == int_id_spec(guid@),
{
    let v = chars(guid);
    let end: usize = if ends_with_activity(&v) {
        v.len() - 9
    } else {
        v.len()
    };
    let ghost stem = id_stem(guid@);
    assert(stem == v@.take(end as int));
    let mut start: usize = end;
    while start > 0 && is_digit_char(v[start - 1])
        invariant
            0 <= start <= end <= v.len(),
            stem == v@.take(end as int),
            all_digits(stem.skip(start as int)),
        decreases start,
    {
        start = start - 1;
        proof {
            assert forall|i: int| 0 <= i < stem.skip(start as int).len() implies is_digit(
                #[trigger] stem.skip(start as int)[i],
            ) by {
                if i > 0 {
                    assert(stem.skip(start as int)[i] == stem.skip(start as int + 1)[i - 1]);
                }
            }
        }
    }
    proof {
        lemma_digit_run_is(stem, start as int);
    }
    if start == 0 || start == end || v[start - 1] != '/' {
        return Err(ParseError::NoIntegerId);
    }
    let ghost digits = stem.skip(start as int);
    assert(id_digits(guid@) == Some(digits));
    let mut value: i64 = 0;
    let mut i: usize = start;
    while i < end
        invariant
            start <= i <= end <= v.len(),
            stem == v@.take(end as int),
            digits == stem.skip(start as int),
            id_digits(guid@) == Some(digits),
            all_digits(digits),
            value == decimal_value(digits.take(i - start)),
            0 <= value,
        decreases end - i,
    {
        let c = v[i];
        proof {
            assert(digits[i - start] == c);
            assert(is_digit(c));
            assert(digits.take(i - start + 1).drop_last() == digits.take(i - start));
            assert(digits.take(i - start + 1).last() == c);
            lemma_decimal_value_bounds(digits, i - start + 1);
        }
        let d: i64 = (c as u32 - '0' as u32) as i64;
        assert(d == digit_value(c));
        assert(decimal_value(digits.take(i - start + 1)) == value * 10 + d);
        if value > (i64::MAX - d) / 10 {
            assert(value * 10 + d > i64::MAX);
            return Err(ParseError::IdOutOfRange);
        }
        value = value * 10 + d;
        i = i + 1;
    }
    assert(digits.take(end - start) == digits);
    Ok(value)
}

/// The character that writes a digit.
pub open spec fn digit_char(d: int) -> char {
    if d == 0 {
        '0'
    } else if d == 1 {
        '1'
    } else if d == 2 {
        '2'
    } else if d == 3 {
        '3'
    } else if d == 4 {
        '4'
    } else if d == 5 {
        '5'
    } else if d == 6 {
        '6'
    } else if d == 7 {
        '7'
    } else if d == 8 {
        '8'
    } else {
        '9'
    }
}

/// The decimal digits of a natural number, without leading zeros.
pub open spec fn digits_of(n: nat) -> Seq<char>
    decreases n,
{
    if n < 10 {
        seq![digit_char(n as int)]
    } else {
        digits_of(n / 10).push(digit_char((n % 10) as int))
    }
}

/// An integer written in decimal, with a `-` in front where it is negative.
pub open spec fn decimal_text(n: int) -> Seq<char> {
    if n < 0 {
        seq!['-'] + digits_of((-n) as nat)
    } else {
        digits_of(n as nat)
    }
}

/// The digits that write a number are digits, and they write that number.
pub proof fn lemma_digits_round_trip(n: nat)
    ensures
        digits_of(n).len() > 0,
        all_digits(digits_of(n)),
        decimal_value(digits_of(n)) == n,
    decreases n,
{
    if n < 10 {
        let s = digits_of(n);
        assert(s.drop_last() =~= Seq::<char>::empty());
        assert(decimal_value(s.drop_last()) == 0);
    } else {
        lemma_digits_round_trip(n / 10);
        let s = digits_of(n);
        assert(s.drop_last() =~= digits_of(n / 10));
        assert(s.last() == digit_char((n % 10) as int));
    }
}

/// Ten to the power of `k`.
pub open spec fn pow10(k: nat) -> nat
    decreases k,
{
    if k == 0 {
        1
    } else {
        10 * pow10((k - 1) as nat)
    }
}

/// A number below ten to the `k` is written with `k` digits at most.
pub proof fn lemma_digits_len(n: nat, k: nat)
    requires
        k >= 1,
        n < pow10(k),
    ensures
        digits_of(n).len() <= k,
    decreases k,
{
    if n >= 10 {
        assert(pow10(1) == 10) by {
            assert(pow10(0) == 1);
        }
        assert(k >= 2);
        lemma_digits_len(n / 10, (k - 1) as nat);
    }
}

/// An integer that a cursor can hold is written with twenty characters at
/// most.
pub proof fn lemma_decimal_text_len(n: i64)
    ensures
        0 < decimal_text(n as int).len() <= 20,
{
    assert(pow10(19) == 10_000_000_000_000_000_000nat) by {
        reveal_with_fuel(pow10, 20);
    }
    if n < 0 {
        lemma_digits_len((-n) as nat, 19);
        lemma_digits_round_trip((-n) as nat);
    } else {
        lemma_digits_len(n as nat, 19);
        lemma_digits_round_trip(n as nat);
    }
}

fn digit_text(d: u64) -> (s: &'static str)
    requires
        d < 10,
    ensures
        s@ == seq![digit_char(d as int)],
{
    proof {
        reveal_strlit("0");
        reveal_strlit("1");
        reveal_strlit("2");
        reveal_strlit("3");
        reveal_strlit("4");
        reveal_strlit("5");
        reveal_strlit("6");
        reveal_strlit("7");
        reveal_strlit("8");
        reveal_strlit("9");
    }
    let s = if d == 0 {
        "0"
    } else if d == 1 {
        "1"
    } else if d == 2 {
        "2"
    } else if d == 3 {
        "3"
    } else if d == 4 {
        "4"
    } else if d == 5 {
        "5"
    } else if d == 6 {
        "6"
    } else if d == 7 {
        "7"
    } else if d == 8 {
        "8"
    } else {
        "9"
    };
    assert(s@ =~= seq![digit_char(d as int)]);
    s
}

pub(crate) fn push_digits(out: &mut String, n: u64)
    ensures
        final(out)@ == old(out)@ + digits_of(n as nat),
    decreases n,
{
    if n >= 10 {
        push_digits(out, n / 10);
    }
    let ghost before = out@;
    out.append(digit_text(n % 10));
    proof {
        if n >= 10 {
            assert(out@ =~= old(out)@ + digits_of(n as nat));
        } else {
            assert(out@ =~= old(out)@ + digits_of(n as nat));
        }
    }
}

/// `n` written in decimal.
pub fn decimal(n: i64) -> (text: String)
    ensures
        text@ == decimal_text(n as int),
{
    let mut text = String::new();
    if n < 0 {
        let magnitude: u64 = (-(n + 1)) as u64 + 1;
        text.append("-");
        proof {
            reveal_strlit("-");
        }
        push_digits(&mut text, magnitude);
        assert(text@ =~= decimal_text(n as int));
    } else {
        push_digits(&mut text, n as u64);
        assert(text@ =~= decimal_text(n as int));
    }
    text
}

} // verus!
