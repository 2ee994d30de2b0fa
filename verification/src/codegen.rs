//! Helpers for the code-generation front-end: counting `$N` parameter
//! placeholders in a query string, and mapping column names to
//! host-language identifiers.
use vstd::prelude::*;
use crate::text::{all_digits, digits_value, is_digit};

verus! {

/// The index after the run of decimal digits starting at `i`.
pub open spec fn digits_run_end(s: Seq<char>, i: int) -> int
    recommends 0 <= i <= s.len(),
    decreases s.len() - i,
{
    if i < 0 || i >= s.len() {
        i
    } else if is_digit(s[i]) {
        digits_run_end(s, i + 1)
    } else {
        i
    }
}

proof fn lemma_digits_run_end(s: Seq<char>, i: int, j: int)
    requires
        0 <= i <= j <= s.len(),
        forall|k: int| i <= k < j ==> is_digit(s[k]),
        j == s.len() || !is_digit(s[j]),
    ensures digits_run_end(s, i) == j,
    decreases j - i,
{
    if i < j {
        lemma_digits_run_end(s, i + 1, j);
    }
}

proof fn lemma_digits_run_end_bounds(s: Seq<char>, i: int)
    requires 0 <= i <= s.len(),
    ensures
        i <= digits_run_end(s, i) <= s.len(),
        forall|k: int| i <= k < digits_run_end(s, i) ==> is_digit(s[k]),
    decreases s.len() - i,
{
    if i < s.len() && is_digit(s[i]) {
        lemma_digits_run_end_bounds(s, i + 1);
    }
}

/// What `usize` parsing of a digit run yields: the value when it is one
/// or more digits and fits, nothing otherwise.
pub open spec fn parse_usize_spec(s: Seq<char>) -> Option<usize> {
    if s.len() > 0 && all_digits(s) && digits_value(s) <= usize::MAX {
        Some(digits_value(s) as usize)
    } else {
        None
    }
}

/// The largest `$N` placeholder number found at or after position `i`,
/// starting from a running maximum `cur`. A `$` not followed by a
/// parseable number changes nothing.
pub open spec fn placeholder_max(s: Seq<char>, i: int, cur: nat) -> nat
    recommends 0 <= i,
    decreases s.len() - i,
    via placeholder_max_dec
{
    if i < 0 || i >= s.len() {
        cur
    } else if s[i] == '$' {
        let j = digits_run_end(s, i + 1);
        let cur2 = match parse_usize_spec(s.subrange(i + 1, j)) {
            Some(v) => if v > cur {
                v as nat
            } else {
                cur
            },
            None => cur,
        };
        placeholder_max(s, j, cur2)
    } else {
        placeholder_max(s, i + 1, cur)
    }
}

#[via_fn]
proof fn placeholder_max_dec(s: Seq<char>, i: int, cur: nat) {
    if 0 <= i && i < s.len() && s[i] == '$' {
        lemma_digits_run_end_bounds(s, i + 1);
    }
}

/// The number of `$N` parameter placeholders a query string calls for:
/// the largest `N` mentioned, by a plain scan of the text.
pub open spec fn count_placeholders_spec(s: Seq<char>) -> nat {
    placeholder_max(s, 0, 0)
}

proof fn lemma_digits_value_monotone_take(s: Seq<char>, i: int)
    requires 0 <= i <= s.len(), all_digits(s),
    ensures digits_value(s.take(i)) <= digits_value(s),
    decreases s.len() - i,
{
    if i == s.len() {
        assert(s.take(i) =~= s);
    } else {
        assert(s.take(i + 1).drop_last() =~= s.take(i));
        assert(digits_value(s.take(i + 1)) == digits_value(s.take(i)) * 10 + (
        (s[i] as int) - ('0' as int)));
        lemma_digits_value_monotone_take(s, i + 1);
    }
}

/// Count the `$N` placeholders of a query string: the largest `N` found.
#[verifier::loop_isolation(false)]
pub fn count_placeholders(sql: &str) -> (r: usize)
    ensures r as nat == count_placeholders_spec(sql@),
{
    let n = sql.unicode_len();
    let mut cur: usize = 0;
    let mut i: usize = 0;
    while i < n
        invariant
            i <= n,
            n == sql@.len(),
            count_placeholders_spec(sql@) == placeholder_max(sql@, i as int, cur as nat),
        decreases n - i,
    {
        if sql.get_char(i) == '$' {
            let start = i + 1;
            let mut j: usize = start;
            while j < n && is_digit_exec(sql.get_char(j))
                invariant
                    start <= j <= n,
                    forall|k: int| start <= k < j ==> is_digit(sql@[k]),
                decreases n - j,
            {
                j = j + 1;
            }
            proof {
                lemma_digits_run_end(sql@, start as int, j as int);
            }
            let ghost run = sql@.subrange(start as int, j as int);
            let mut value: usize = 0;
            let mut overflow = false;
            let mut k: usize = start;
            while k < j
                invariant
                    start <= k <= j <= n,
                    run == sql@.subrange(start as int, j as int),
                    forall|m: int| start <= m < j ==> is_digit(sql@[m]),
                    all_digits(run.take(k - start)),
                    !overflow ==> value == digits_value(run.take(k - start)),
                    overflow ==> digits_value(run.take(k - start)) > usize::MAX,
                decreases j - k,
            {
                let c = sql.get_char(k);
                proof {
                    assert(run.take(k - start + 1).drop_last() =~= run.take(k - start));
                    assert(run.take(k - start + 1).last() == c);
                    assert forall|m: int| 0 <= m < k - start + 1 implies is_digit(
                        #[trigger] run.take(k - start + 1)[m],
                    ) by {
                        assert(run.take(k - start + 1)[m] == sql@[start + m]);
                    }
                }
                let d = (c as u8) - 48;
                if !overflow {
                    if value > (usize::MAX - (d as usize)) / 10 {
                        overflow = true;
                        proof {
                            assert(digits_value(run.take(k - start + 1))
                                == digits_value(run.take(k - start)) * 10 + (d as int));
                        }
                    } else {
                        value = value * 10 + (d as usize);
                    }
                } else {
                    proof {
                        assert(digits_value(run.take(k - start + 1))
                            >= digits_value(run.take(k - start)));
                    }
                }
                k = k + 1;
            }
            proof {
                assert(run.take((j - start) as int) =~= run);
            }
            if j > start && !overflow {
                if value > cur {
                    cur = value;
                }
            }
            proof {
                if all_digits(run) && run.len() > 0 && overflow {
                    assert(parse_usize_spec(run) is None);
                }
            }
            i = j;
        } else {
            i = i + 1;
        }
    }
    cur
}

fn is_digit_exec(c: char) -> (r: bool)
    ensures r == is_digit(c),
{
    '0' <= c && c <= '9'
}

/// An identifier character that may stay as it is: ASCII alphanumeric or
/// underscore.
pub open spec fn keeps_char(c: char) -> bool {
    ('0' <= c && c <= '9') || ('a' <= c && c <= 'z') || ('A' <= c && c <= 'Z') || c == '_'
}

/// One sanitized character.
pub open spec fn sanitize_char(c: char) -> char {
    if keeps_char(c) {
        c
    } else {
        '_'
    }
}

/// The name with every character outside the identifier alphabet
/// replaced by an underscore.
pub open spec fn sanitized_seq(s: Seq<char>) -> Seq<char> {
    s.map_values(|c: char| sanitize_char(c))
}

/// Is this a host-language keyword that needs escaping?
pub open spec fn is_reserved_word(s: Seq<char>) -> bool {
    s == "type"@ || s == "match"@ || s == "ref"@ || s == "self"@ || s == "mod"@ || s == "fn"@
        || s == "let"@ || s == "use"@ || s == "pub"@ || s == "struct"@ || s == "enum"@
        || s == "trait"@ || s == "impl"@ || s == "const"@ || s == "static"@ || s == "mut"@
        || s == "as"@ || s == "break"@ || s == "continue"@ || s == "return"@ || s == "if"@
        || s == "else"@ || s == "loop"@ || s == "while"@ || s == "for"@ || s == "in"@
        || s == "where"@ || s == "async"@ || s == "await"@ || s == "move"@ || s == "dyn"@
        || s == "super"@ || s == "crate"@ || s == "extern"@ || s == "unsafe"@
}

/// The host-language identifier a column name maps to: foreign
/// characters become underscores, keywords are raw-escaped, a leading
/// digit gains an underscore prefix, an empty name becomes a sentinel.
pub open spec fn sanitize_field_name_spec(s: Seq<char>) -> Seq<char> {
    let base = sanitized_seq(s);
    if is_reserved_word(base) {
        "r#"@ + base
    } else if base.len() > 0 && is_digit(base[0]) {
        "_"@ + base
    } else if base.len() == 0 {
        "_unnamed"@
    } else {
        base
    }
}

fn is_reserved_exec(s: &str) -> (r: bool)
    ensures r == is_reserved_word(s@),
{
    crate::text::eq_str(s, "type") || crate::text::eq_str(s, "match")
        || crate::text::eq_str(s, "ref") || crate::text::eq_str(s, "self")
        || crate::text::eq_str(s, "mod") || crate::text::eq_str(s, "fn")
        || crate::text::eq_str(s, "let") || crate::text::eq_str(s, "use")
        || crate::text::eq_str(s, "pub") || crate::text::eq_str(s, "struct")
        || crate::text::eq_str(s, "enum") || crate::text::eq_str(s, "trait")
        || crate::text::eq_str(s, "impl") || crate::text::eq_str(s, "const")
        || crate::text::eq_str(s, "static") || crate::text::eq_str(s, "mut")
        || crate::text::eq_str(s, "as") || crate::text::eq_str(s, "break")
        || crate::text::eq_str(s, "continue") || crate::text::eq_str(s, "return")
        || crate::text::eq_str(s, "if") || crate::text::eq_str(s, "else")
        || crate::text::eq_str(s, "loop") || crate::text::eq_str(s, "while")
        || crate::text::eq_str(s, "for") || crate::text::eq_str(s, "in")
        || crate::text::eq_str(s, "where") || crate::text::eq_str(s, "async")
        || crate::text::eq_str(s, "await") || crate::text::eq_str(s, "move")
        || crate::text::eq_str(s, "dyn") || crate::text::eq_str(s, "super")
        || crate::text::eq_str(s, "crate") || crate::text::eq_str(s, "extern")
        || crate::text::eq_str(s, "unsafe")
}

/// Map a column name to a valid host-language identifier.
#[verifier::loop_isolation(false)]
pub fn sanitize_field_name(name: &str) -> (r: String)
    ensures r@ == sanitize_field_name_spec(name@),
{
    let n = name.unicode_len();
    let mut base = String::new();
    let mut i: usize = 0;
    while i < n
        invariant
            i <= n,
            n == name@.len(),
            base@ == sanitized_seq(name@.take(i as int)),
        decreases n - i,
    {
        let c = name.get_char(i);
        let kept = ('0' <= c && c <= '9') || ('a' <= c && c <= 'z') || ('A' <= c && c <= 'Z')
            || c == '_';
        let out_c = if kept {
            c
        } else {
            '_'
        };
        crate::text::push_char(&mut base, out_c);
        proof {
            assert(name@.take(i + 1) =~= name@.take(i as int).push(name@[i as int]));
            assert(sanitized_seq(name@.take(i + 1)) =~= sanitized_seq(name@.take(i as int)).push(
                sanitize_char(name@[i as int]),
            ));
        }
        i = i + 1;
    }
    proof {
        assert(name@.take(n as int) =~= name@);
    }
    if is_reserved_exec(base.as_str()) {
        let mut out = String::from_str("r#");
        out.append(base.as_str());
        out
    } else if base.unicode_len() > 0 && is_digit_exec(base.as_str().get_char(0)) {
        let mut out = String::from_str("_");
        out.append(base.as_str());
        out
    } else if base.unicode_len() == 0 {
        String::from_str("_unnamed")
    } else {
        base
    }
}

} // verus!
