//! Raw value handling: ASCII-case-insensitive comparison, splitting a token
//! on a delimiter character, the negative-number token shape, and the value
//! checks (enumerated sets and the built-in boolean interpreters).
use vstd::prelude::*;

use crate::command::{TypedValueParser, ValueCheck, ValueCheckModel};
use crate::strutil::str_eq;

verus! {

/// The ASCII-lowercase counterpart of a character; other characters are
/// unchanged.
pub open spec fn spec_lower(c: char) -> char {
    if c == 'A' {
        'a'
    } else if c == 'B' {
        'b'
    } else if c == 'C' {
        'c'
    } else if c == 'D' {
        'd'
    } else if c == 'E' {
        'e'
    } else if c == 'F' {
        'f'
    } else if c == 'G' {
        'g'
    } else if c == 'H' {
        'h'
    } else if c == 'I' {
        'i'
    } else if c == 'J' {
        'j'
    } else if c == 'K' {
        'k'
    } else if c == 'L' {
        'l'
    } else if c == 'M' {
        'm'
    } else if c == 'N' {
        'n'
    } else if c == 'O' {
        'o'
    } else if c == 'P' {
        'p'
    } else if c == 'Q' {
        'q'
    } else if c == 'R' {
        'r'
    } else if c == 'S' {
        's'
    } else if c == 'T' {
        't'
    } else if c == 'U' {
        'u'
    } else if c == 'V' {
        'v'
    } else if c == 'W' {
        'w'
    } else if c == 'X' {
        'x'
    } else if c == 'Y' {
        'y'
    } else if c == 'Z' {
        'z'
    } else {
        c
    }
}

fn lower_char(c: char) -> (r: char)
    ensures
        r == spec_lower(c),
{
    match c {
        'A' => 'a',
        'B' => 'b',
        'C' => 'c',
        'D' => 'd',
        'E' => 'e',
        'F' => 'f',
        'G' => 'g',
        'H' => 'h',
        'I' => 'i',
        'J' => 'j',
        'K' => 'k',
        'L' => 'l',
        'M' => 'm',
        'N' => 'n',
        'O' => 'o',
        'P' => 'p',
        'Q' => 'q',
        'R' => 'r',
        'S' => 's',
        'T' => 't',
        'U' => 'u',
        'V' => 'v',
        'W' => 'w',
        'X' => 'x',
        'Y' => 'y',
        'Z' => 'z',
        _ => c,
    }
}

/// Equality up to ASCII case.
pub open spec fn spec_ci_eq(a: Seq<char>, b: Seq<char>) -> bool {
    a.map_values(|c: char| spec_lower(c)) == b.map_values(|c: char| spec_lower(c))
}

/// Compares two strings, ignoring ASCII case.
pub fn str_eq_ci(a: &str, b: &str) -> (r: bool)
    ensures
        r == spec_ci_eq(a@, b@),
{
    let an = a.unicode_len();
    let bn = b.unicode_len();
    if an != bn {
        proof {
            assert(a@.map_values(|c: char| spec_lower(c)).len() != b@.map_values(
                |c: char| spec_lower(c),
            ).len());
        }
        return false;
    }
    let mut i: usize = 0;
    while i < an
        invariant
            i <= an,
            an as nat == a@.len(),
            an as nat == b@.len(),
            forall|j: int| 0 <= j < i ==> spec_lower(a@[j]) == spec_lower(b@[j]),
        decreases an - i,
    {
        if lower_char(a.get_char(i)) != lower_char(b.get_char(i)) {
            proof {
                assert(a@.map_values(|c: char| spec_lower(c))[i as int] != b@.map_values(
                    |c: char| spec_lower(c),
                )[i as int]);
            }
            return false;
        }
        i = i + 1;
    }
    proof {
        assert(a@.map_values(|c: char| spec_lower(c)) =~= b@.map_values(
            |c: char| spec_lower(c),
        ));
    }
    true
}

/// Equality of a value against an expected string, case-insensitively when
/// `ci` is set.
pub open spec fn spec_value_eq(expected: Seq<char>, v: Seq<char>, ci: bool) -> bool {
    if ci {
        spec_ci_eq(expected, v)
    } else {
        expected == v
    }
}

fn value_eq(expected: &str, v: &str, ci: bool) -> (r: bool)
    ensures
        r == spec_value_eq(expected@, v@, ci),
{
    if ci {
        str_eq_ci(expected, v)
    } else {
        str_eq(expected, v)
    }
}

/// One step of the delimiter fold: a delimiter closes the current piece,
/// any other character extends it.
pub open spec fn spec_split_step(
    pieces: Seq<Seq<char>>,
    cur: Seq<char>,
    c: char,
    d: char,
) -> (Seq<Seq<char>>, Seq<char>) {
    if c == d {
        (pieces.push(cur), Seq::empty())
    } else {
        (pieces, cur.push(c))
    }
}

/// The fold over the first `i` characters of `s`.
pub open spec fn spec_split_iter(s: Seq<char>, d: char, i: int) -> (Seq<Seq<char>>, Seq<char>)
    decreases i,
{
    if i <= 0 {
        (Seq::empty(), Seq::empty())
    } else {
        let r = spec_split_iter(s, d, i - 1);
        if 0 <= i - 1 < s.len() {
            spec_split_step(r.0, r.1, s[i - 1], d)
        } else {
            r
        }
    }
}

/// `s` split on the delimiter `d`: the pieces between delimiters, in order,
/// with empty pieces kept.
pub open spec fn spec_split(s: Seq<char>, d: char) -> Seq<Seq<char>> {
    let r = spec_split_iter(s, d, s.len() as int);
    r.0.push(r.1)
}

/// Splits a string on a delimiter character, keeping empty pieces.
pub fn split_on(s: &str, d: char) -> (r: Vec<String>)
    ensures
        r.deep_view() == spec_split(s@, d),
{
    let n = s.unicode_len();
    let mut pieces: Vec<String> = Vec::new();
    let mut cur = String::new();
    let mut i: usize = 0;
    while i < n
        invariant
            i <= n,
            n as nat == s@.len(),
            (pieces.deep_view(), cur@) == spec_split_iter(s@, d, i as int),
        decreases n - i,
    {
        let c = s.get_char(i);
        if c == d {
            pieces.push(cur);
            cur = String::new();
        } else {
            crate::strutil::push_char(&mut cur, c);
        }
        i = i + 1;
    }
    pieces.push(cur);
    proof {
        assert(pieces.deep_view() =~= spec_split(s@, d));
    }
    pieces
}

/// Whether `c` is a decimal digit.
pub open spec fn spec_is_digit(c: char) -> bool {
    c == '0' || c == '1' || c == '2' || c == '3' || c == '4' || c == '5' || c == '6' || c == '7'
        || c == '8' || c == '9'
}

fn is_digit(c: char) -> (r: bool)
    ensures
        r == spec_is_digit(c),
{
    match c {
        '0' | '1' | '2' | '3' | '4' | '5' | '6' | '7' | '8' | '9' => true,
        _ => false,
    }
}

/// A negative-number-looking token: a hyphen followed by one or more
/// decimal digits.
pub open spec fn spec_is_neg_number(t: Seq<char>) -> bool {
    t.len() >= 2 && t[0] == '-' && forall|j: int| 1 <= j < t.len() ==> spec_is_digit(#[trigger] t[j])
}

/// Whether the token has the shape of a negative decimal number.
pub fn is_neg_number(t: &str) -> (r: bool)
    ensures
        r == spec_is_neg_number(t@),
{
    let n = t.unicode_len();
    if n < 2 {
        return false;
    }
    if t.get_char(0) != '-' {
        return false;
    }
    let mut j: usize = 1;
    while j < n
        invariant
            1 <= j <= n,
            n as nat == t@.len(),
            forall|k: int| 1 <= k < j ==> spec_is_digit(#[trigger] t@[k]),
        decreases n - j,
    {
        if !is_digit(t.get_char(j)) {
            return false;
        }
        j = j + 1;
    }
    true
}

/// Whether the value is one of the boolean-ish words for true.
pub open spec fn spec_boolish_true(v: Seq<char>) -> bool {
    ||| spec_ci_eq(v, "y"@)
    ||| spec_ci_eq(v, "yes"@)
    ||| spec_ci_eq(v, "t"@)
    ||| spec_ci_eq(v, "true"@)
    ||| spec_ci_eq(v, "on"@)
    ||| spec_ci_eq(v, "1"@)
}

/// Whether the value is one of the boolean-ish words for false.
pub open spec fn spec_boolish_false(v: Seq<char>) -> bool {
    ||| spec_ci_eq(v, "n"@)
    ||| spec_ci_eq(v, "no"@)
    ||| spec_ci_eq(v, "f"@)
    ||| spec_ci_eq(v, "false"@)
    ||| spec_ci_eq(v, "off"@)
    ||| spec_ci_eq(v, "0"@)
}

/// Whether the falsey interpreter reads the value as false: the empty
/// string and the boolean-ish words for false.
pub open spec fn spec_falsey_false(v: Seq<char>) -> bool {
    v.len() == 0 || spec_boolish_false(v)
}

/// Whether the enumerated set admits the value.
pub open spec fn spec_one_of(set: Seq<Seq<char>>, v: Seq<char>, ci: bool) -> bool {
    exists|i: int| 0 <= i < set.len() && spec_value_eq(#[trigger] set[i], v, ci)
}

/// The outcome of checking one raw value: the (possibly interpreted) value
/// to record, or rejection.
pub open spec fn spec_check_value(
    check: ValueCheckModel,
    ci: bool,
    v: Seq<char>,
) -> Option<Seq<char>> {
    match check {
        ValueCheckModel::Any => Some(v),
        ValueCheckModel::OneOf(set) => if spec_one_of(set, v, ci) {
            Some(v)
        } else {
            None
        },
        ValueCheckModel::Typed(TypedValueParser::Bool) => if v == "true"@ || v == "false"@ {
            Some(v)
        } else {
            None
        },
        ValueCheckModel::Typed(TypedValueParser::Boolish) => if spec_boolish_true(v) {
            Some("true"@)
        } else if spec_boolish_false(v) {
            Some("false"@)
        } else {
            None
        },
        ValueCheckModel::Typed(TypedValueParser::Falsey) => if spec_falsey_false(v) {
            Some("false"@)
        } else {
            Some("true"@)
        },
    }
}

fn boolish_true(v: &str) -> (r: bool)
    ensures
        r == spec_boolish_true(v@),
{
    str_eq_ci(v, "y") || str_eq_ci(v, "yes") || str_eq_ci(v, "t") || str_eq_ci(v, "true")
        || str_eq_ci(v, "on") || str_eq_ci(v, "1")
}

fn boolish_false(v: &str) -> (r: bool)
    ensures
        r == spec_boolish_false(v@),
{
    str_eq_ci(v, "n") || str_eq_ci(v, "no") || str_eq_ci(v, "f") || str_eq_ci(v, "false")
        || str_eq_ci(v, "off") || str_eq_ci(v, "0")
}

/// Checks one raw value against the configured check, returning the value
/// to record, or `None` when the value is rejected.
pub fn check_value(check: &ValueCheck, ci: bool, v: &String) -> (r: Option<String>)
    ensures
        r.deep_view() == spec_check_value(check@, ci, v@),
{
    match check {
        ValueCheck::Any => Some(v.clone()),
        ValueCheck::OneOf(set) => {
            let mut i: usize = 0;
            while i < set.len()
                invariant
                    i <= set.len(),
                    check@ == ValueCheckModel::OneOf(set.deep_view()),
                    forall|j: int|
                        0 <= j < i ==> !spec_value_eq(#[trigger] set.deep_view()[j], v@, ci),
                decreases set.len() - i,
            {
                if value_eq(set[i].as_str(), v.as_str(), ci) {
                    let c = v.clone();
                    proof {
                        assert(spec_value_eq(set.deep_view()[i as int], v@, ci));
                        assert(spec_one_of(set.deep_view(), v@, ci));
                        assert(Some(c).deep_view() == Some(v@));
                    }
                    return Some(c);
                }
                i = i + 1;
            }
            assert(!spec_one_of(set.deep_view(), v@, ci));
            None
        },
        ValueCheck::Typed(TypedValueParser::Bool) => {
            if str_eq(v.as_str(), "true") || str_eq(v.as_str(), "false") {
                Some(v.clone())
            } else {
                None
            }
        },
        ValueCheck::Typed(TypedValueParser::Boolish) => {
            if boolish_true(v.as_str()) {
                Some("true".to_owned())
            } else if boolish_false(v.as_str()) {
                Some("false".to_owned())
            } else {
                None
            }
        },
        ValueCheck::Typed(TypedValueParser::Falsey) => {
            if v.as_str().is_empty() || boolish_false(v.as_str()) {
                Some("false".to_owned())
            } else {
                Some("true".to_owned())
            }
        },
    }
}

} // verus!
