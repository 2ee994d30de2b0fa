//! Character and string helpers shared by the catalog, the type parser and
//! the validator: ASCII case folding, trimming, prefix/suffix tests, and
//! decimal digits.
//!
//! Identifier comparison throughout the crate is case-insensitive in the
//! ASCII range; non-ASCII characters compare verbatim.
use vstd::prelude::*;

verus! {

/// ASCII case folding of one character.
pub open spec fn fold_char(c: char) -> char {
    if 'A' <= c && c <= 'Z' {
        (((c as u8) + 32) as char)
    } else {
        c
    }
}

/// ASCII case folding of a whole character sequence.
pub open spec fn fold_seq(s: Seq<char>) -> Seq<char> {
    s.map_values(|c: char| fold_char(c))
}

/// Two names are the same identifier when they fold to the same sequence.
pub open spec fn same_ident(a: Seq<char>, b: Seq<char>) -> bool {
    fold_seq(a) == fold_seq(b)
}

pub proof fn lemma_fold_seq_len(s: Seq<char>)
    ensures fold_seq(s).len() == s.len(),
{
}

/// Folding twice is the same as folding once.
pub proof fn lemma_fold_idempotent(s: Seq<char>)
    ensures fold_seq(fold_seq(s)) == fold_seq(s),
{
    assert forall|i: int| 0 <= i < s.len() implies fold_seq(fold_seq(s))[i] == fold_seq(s)[i] by {
        assert(fold_seq(s)[i] == fold_char(s[i]));
    }
    assert(fold_seq(fold_seq(s)) =~= fold_seq(s));
}

fn fold_char_exec(c: char) -> (r: char)
    ensures r == fold_char(c),
{
    if 'A' <= c && c <= 'Z' {
        ((c as u8) + 32) as char
    } else {
        c
    }
}

/// Relies on std's `String::push`: appends one character at the end.
#[verifier::external_body]
pub(crate) fn push_char(s: &mut String, c: char)
    ensures final(s)@ == old(s)@.push(c),
{
    s.push(c);
}

/// A fresh string holding the case-folded characters of `s`.
pub fn fold_string(s: &str) -> (r: String)
    ensures r@ == fold_seq(s@),
{
    let n = s.unicode_len();
    let mut out = String::new();
    let mut i: usize = 0;
    while i < n
        invariant
            i <= n,
            n == s@.len(),
            out@ == fold_seq(s@.take(i as int)),
        decreases n - i,
    {
        let c = s.get_char(i);
        let f = fold_char_exec(c);
        push_char(&mut out, f);
        proof {
            assert(s@.take((i + 1) as int) == s@.take(i as int).push(s@[i as int]));
            assert(fold_seq(s@.take((i + 1) as int))
                == fold_seq(s@.take(i as int)).push(fold_char(s@[i as int])));
        }
        i = i + 1;
    }
    proof {
        assert(s@.take(n as int) == s@);
    }
    out
}

/// Exact character-for-character equality of two string slices.
pub fn eq_str(a: &str, b: &str) -> (r: bool)
    ensures r == (a@ == b@),
{
    let la = a.unicode_len();
    let lb = b.unicode_len();
    if la != lb {
        return false;
    }
    let mut i: usize = 0;
    while i < la
        invariant
            i <= la,
            la == a@.len(),
            lb == b@.len(),
            la == lb,
            forall|j: int| 0 <= j < i ==> a@[j] == b@[j],
        decreases la - i,
    {
        if a.get_char(i) != b.get_char(i) {
            return false;
        }
        i = i + 1;
    }
    proof {
        assert(a@ =~= b@);
    }
    true
}

/// Case-insensitive equality of two string slices.
pub fn eq_fold(a: &str, b: &str) -> (r: bool)
    ensures r == same_ident(a@, b@),
{
    let la = a.unicode_len();
    let lb = b.unicode_len();
    if la != lb {
        proof {
            lemma_fold_seq_len(a@);
            lemma_fold_seq_len(b@);
        }
        return false;
    }
    let mut i: usize = 0;
    while i < la
        invariant
            i <= la,
            la == a@.len(),
            lb == b@.len(),
            la == lb,
            forall|j: int| 0 <= j < i ==> fold_char(a@[j]) == fold_char(b@[j]),
        decreases la - i,
    {
        let ca = fold_char_exec(a.get_char(i));
        let cb = fold_char_exec(b.get_char(i));
        if ca != cb {
            proof {
                assert(fold_seq(a@)[i as int] != fold_seq(b@)[i as int]);
            }
            return false;
        }
        i = i + 1;
    }
    proof {
        assert forall|j: int| 0 <= j < la implies fold_seq(a@)[j] == fold_seq(b@)[j] by {
            assert(fold_char(a@[j]) == fold_char(b@[j]));
        }
        assert(fold_seq(a@) =~= fold_seq(b@));
    }
    true
}

/// ASCII whitespace.
pub open spec fn is_space(c: char) -> bool {
    c == ' ' || c == '\t' || c == '\n' || c == '\r'
}

/// `s` with leading whitespace removed.
pub open spec fn trim_left(s: Seq<char>) -> Seq<char>
    decreases s.len(),
{
    if s.len() > 0 && is_space(s[0]) {
        trim_left(s.drop_first())
    } else {
        s
    }
}

/// `s` with trailing whitespace removed.
pub open spec fn trim_right(s: Seq<char>) -> Seq<char>
    decreases s.len(),
{
    if s.len() > 0 && is_space(s[s.len() - 1]) {
        trim_right(s.drop_last())
    } else {
        s
    }
}

/// `s` with whitespace removed on both sides.
pub open spec fn trim_seq(s: Seq<char>) -> Seq<char> {
    trim_right(trim_left(s))
}

pub proof fn lemma_trim_left_len(s: Seq<char>)
    ensures trim_left(s).len() <= s.len(),
    decreases s.len(),
{
    if s.len() > 0 && is_space(s[0]) {
        lemma_trim_left_len(s.drop_first());
    }
}

pub proof fn lemma_trim_right_len(s: Seq<char>)
    ensures trim_right(s).len() <= s.len(),
    decreases s.len(),
{
    if s.len() > 0 && is_space(s[s.len() - 1]) {
        lemma_trim_right_len(s.drop_last());
    }
}

pub proof fn lemma_trim_len(s: Seq<char>)
    ensures trim_seq(s).len() <= s.len(),
{
    lemma_trim_left_len(s);
    lemma_trim_right_len(trim_left(s));
}

proof fn lemma_trim_left_skip(s: Seq<char>, i: int)
    requires
        0 <= i <= s.len(),
        forall|j: int| 0 <= j < i ==> is_space(s[j]),
        i == s.len() || !is_space(s[i]),
    ensures trim_left(s) == s.skip(i),
    decreases i,
{
    if i == 0 {
        assert(s.skip(0) =~= s);
    } else {
        assert(is_space(s[0]));
        lemma_trim_left_skip(s.drop_first(), i - 1);
        assert(s.drop_first().skip(i - 1) =~= s.skip(i));
    }
}

proof fn lemma_trim_right_take(s: Seq<char>, i: int)
    requires
        0 <= i <= s.len(),
        forall|j: int| i <= j < s.len() ==> is_space(s[j]),
        i == 0 || !is_space(s[i - 1]),
    ensures trim_right(s) == s.take(i),
    decreases s.len() - i,
{
    if i == s.len() {
        assert(s.take(i) =~= s);
    } else {
        assert(is_space(s[s.len() - 1]));
        lemma_trim_right_take(s.drop_last(), i);
        assert(s.drop_last().take(i) =~= s.take(i));
    }
}

fn is_space_exec(c: char) -> (r: bool)
    ensures r == is_space(c),
{
    c == ' ' || c == '\t' || c == '\n' || c == '\r'
}

/// The substring of `s` with surrounding whitespace removed.
pub fn trim_str<'a>(s: &'a str) -> (r: &'a str)
    ensures r@ == trim_seq(s@),
{
    let n = s.unicode_len();
    let mut lo: usize = 0;
    while lo < n && is_space_exec(s.get_char(lo))
        invariant
            lo <= n,
            n == s@.len(),
            forall|j: int| 0 <= j < lo ==> is_space(s@[j]),
        decreases n - lo,
    {
        lo = lo + 1;
    }
    proof {
        lemma_trim_left_skip(s@, lo as int);
    }
    let mut hi: usize = n;
    while hi > lo && is_space_exec(s.get_char(hi - 1))
        invariant
            lo <= hi <= n,
            n == s@.len(),
            forall|j: int| 0 <= j < lo ==> is_space(s@[j]),
            lo == n || !is_space(s@[lo as int]),
            forall|j: int| hi <= j < n ==> is_space(s@[j]),
        decreases hi,
    {
        hi = hi - 1;
    }
    let r = s.substring_char(lo, hi);
    proof {
        let t = trim_left(s@);
        assert(t == s@.skip(lo as int));
        if hi == lo {
            assert forall|j: int| (lo as int) - (lo as int) <= j < t.len() implies is_space(t[j]) by {
                assert(t[j] == s@[j + lo]);
            }
            lemma_trim_right_take(t, 0);
            assert(trim_seq(s@) =~= s@.subrange(lo as int, hi as int));
        } else {
            assert(!is_space(s@[hi - 1]));
            assert forall|j: int| (hi - lo) <= j < t.len() implies is_space(t[j]) by {
                assert(t[j] == s@[j + lo]);
            }
            assert(t[(hi - lo) - 1] == s@[hi - 1]);
            lemma_trim_right_take(t, (hi - lo) as int);
            assert(trim_seq(s@) =~= s@.subrange(lo as int, hi as int));
        }
    }
    r
}

/// Does `s` start with the characters of `p`?
pub open spec fn starts_with(s: Seq<char>, p: Seq<char>) -> bool {
    p.len() <= s.len() && s.take(p.len() as int) == p
}

/// Does `s` end with the characters of `p`?
pub open spec fn ends_with(s: Seq<char>, p: Seq<char>) -> bool {
    p.len() <= s.len() && s.skip(s.len() - p.len()) == p
}

pub fn starts_with_str(s: &str, p: &str) -> (r: bool)
    ensures r == starts_with(s@, p@),
{
    let ls = s.unicode_len();
    let lp = p.unicode_len();
    if lp > ls {
        return false;
    }
    let mut i: usize = 0;
    while i < lp
        invariant
            i <= lp,
            lp <= ls,
            ls == s@.len(),
            lp == p@.len(),
            forall|j: int| 0 <= j < i ==> s@[j] == p@[j],
        decreases lp - i,
    {
        if s.get_char(i) != p.get_char(i) {
            proof {
                assert(s@.take(lp as int)[i as int] != p@[i as int]);
            }
            return false;
        }
        i = i + 1;
    }
    proof {
        assert(s@.take(lp as int) =~= p@);
    }
    true
}

pub fn ends_with_str(s: &str, p: &str) -> (r: bool)
    ensures r == ends_with(s@, p@),
{
    let ls = s.unicode_len();
    let lp = p.unicode_len();
    if lp > ls {
        return false;
    }
    let off = ls - lp;
    let mut i: usize = 0;
    while i < lp
        invariant
            i <= lp,
            lp <= ls,
            ls == s@.len(),
            lp == p@.len(),
            off == ls - lp,
            forall|j: int| 0 <= j < i ==> s@[off + j] == p@[j],
        decreases lp - i,
    {
        if s.get_char(off + i) != p.get_char(i) {
            proof {
                assert(s@.skip(off as int)[i as int] != p@[i as int]);
            }
            return false;
        }
        i = i + 1;
    }
    proof {
        assert(s@.skip(off as int) =~= p@);
    }
    true
}

/// Decimal digit test.
pub open spec fn is_digit(c: char) -> bool {
    '0' <= c && c <= '9'
}

pub open spec fn all_digits(s: Seq<char>) -> bool {
    forall|j: int| 0 <= j < s.len() ==> is_digit(#[trigger] s[j])
}

/// Numeric value of a sequence of decimal digits.
pub open spec fn digits_value(s: Seq<char>) -> nat
    decreases s.len(),
{
    if s.len() == 0 {
        0
    } else {
        (digits_value(s.drop_last()) * 10 + ((s.last() as int) - ('0' as int))) as nat
    }
}

/// What a decimal number parse of `s` yields: the value when `s` is one or
/// more digits and the value fits in `u32`, nothing otherwise.
pub open spec fn parse_u32_spec(s: Seq<char>) -> Option<u32> {
    if s.len() > 0 && all_digits(s) && digits_value(s) <= 0xffff_ffff {
        Some(digits_value(s) as u32)
    } else {
        None
    }
}

proof fn lemma_digits_value_take_grows(s: Seq<char>, i: int)
    requires 0 <= i < s.len(), all_digits(s),
    ensures digits_value(s.take(i)) <= digits_value(s.take(i + 1)),
{
    assert(s.take(i + 1).drop_last() =~= s.take(i));
    assert(digits_value(s.take(i + 1)) == digits_value(s.take(i)) * 10 + ((s[i] as nat) - ('0' as nat)));
}

proof fn lemma_digits_value_monotone(s: Seq<char>, i: int)
    requires 0 <= i <= s.len(), all_digits(s),
    ensures digits_value(s.take(i)) <= digits_value(s),
    decreases s.len() - i,
{
    if i == s.len() {
        assert(s.take(i) =~= s);
    } else {
        lemma_digits_value_take_grows(s, i);
        lemma_digits_value_monotone(s, i + 1);
    }
}

/// Parse the character range `[from, to)` of `s` as a decimal `u32`.
pub fn parse_u32_range(s: &str, from: usize, to: usize) -> (r: Option<u32>)
    requires from <= to <= s@.len(),
    ensures r == parse_u32_spec(s@.subrange(from as int, to as int)),
{
    let ghost d = s@.subrange(from as int, to as int);
    if from == to {
        return None;
    }
    let mut acc: u64 = 0;
    let mut i: usize = from;
    while i < to
        invariant
            from <= i <= to <= s@.len(),
            d == s@.subrange(from as int, to as int),
            acc <= 0xffff_ffff,
            all_digits(d.take(i - from)),
            acc as nat == digits_value(d.take(i - from)),
        decreases to - i,
    {
        let c = s.get_char(i);
        if !('0' <= c && c <= '9') {
            proof {
                assert(d[i - from] == c);
                assert(!all_digits(d));
            }
            return None;
        }
        proof {
            assert(d.take(i - from + 1).drop_last() =~= d.take(i - from));
            assert(d.take(i - from + 1).last() == c);
            assert forall|j: int| 0 <= j < i - from + 1 implies is_digit(#[trigger] d.take(i - from + 1)[j]) by {
                if j < i - from {
                    assert(d.take(i - from)[j] == d.take(i - from + 1)[j]);
                }
            }
        }
        let digit = (c as u8) - 48;
        acc = acc * 10 + (digit as u64);
        i = i + 1;
        if acc > 0xffff_ffff {
            proof {
                assert(d.take((i - from) as int) =~= d.take((i - from) as int));
                if all_digits(d) && digits_value(d) <= 0xffff_ffff {
                    lemma_digits_value_monotone(d, (i - from) as int);
                }
            }
            return None;
        }
    }
    proof {
        assert(d.take((to - from) as int) =~= d);
    }
    Some(acc as u32)
}

/// Character for a single decimal digit.
pub open spec fn digit_char(d: nat) -> char
    recommends d < 10,
{
    (((d + 48) as u8) as char)
}

/// Decimal rendering of a natural number, most significant digit first.
pub open spec fn dec_str(n: nat) -> Seq<char>
    decreases n,
{
    if n < 10 {
        seq![digit_char(n)]
    } else {
        dec_str(n / 10).push(digit_char(n % 10))
    }
}

/// Render `n` in decimal.
pub fn usize_to_string(n: usize) -> (r: String)
    ensures r@ == dec_str(n as nat),
    decreases n,
{
    if n < 10 {
        let mut out = String::new();
        push_char(&mut out, ((n as u8) + 48) as char);
        proof {
            assert(out@ =~= seq![digit_char(n as nat)]);
        }
        out
    } else {
        let mut out = usize_to_string(n / 10);
        push_char(&mut out, (((n % 10) as u8) + 48) as char);
        out
    }
}

} // verus!
