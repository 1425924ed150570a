//! A JSON reader for the backend wire format.
//!
//! `spec_parse_json` is the mathematical definition of what a text means:
//! a recursive descent over the characters, with an explicit recursion
//! budget far beyond any representable nesting.  `parse_json` returns
//! exactly what that definition says, for every input.
use vstd::prelude::*;

use crate::json::{Json, JsonModel};
use vstd::std_specs::iter::IteratorSpec;
use vstd::string::StrSliceExecFns;

verus! {

/// JSON insignificant whitespace.
pub open spec fn is_ws_char(c: char) -> bool {
    c == ' ' || c == '\t' || c == '\n' || c == '\r'
}

/// A decimal digit.
pub open spec fn is_digit_char(c: char) -> bool {
    0x30 <= (c as u32) && (c as u32) <= 0x39
}

/// The first position at or after `i` holding no whitespace.
pub open spec fn skip_ws(s: Seq<char>, i: int) -> int
    decreases s.len() - i,
{
    if 0 <= i < s.len() && is_ws_char(s[i]) {
        skip_ws(s, i + 1)
    } else {
        i
    }
}

/// The first position at or after `i` holding no digit.
pub open spec fn scan_digits(s: Seq<char>, i: int) -> int
    decreases s.len() - i,
{
    if 0 <= i < s.len() && is_digit_char(s[i]) {
        scan_digits(s, i + 1)
    } else {
        i
    }
}

pub proof fn lemma_skip_ws_bounds(s: Seq<char>, i: int)
    requires
        0 <= i <= s.len(),
    ensures
        i <= skip_ws(s, i) <= s.len(),
    decreases s.len() - i,
{
    if i < s.len() && is_ws_char(s[i]) {
        lemma_skip_ws_bounds(s, i + 1);
    }
}

pub proof fn lemma_scan_digits_bounds(s: Seq<char>, i: int)
    requires
        0 <= i <= s.len(),
    ensures
        i <= scan_digits(s, i) <= s.len(),
    decreases s.len() - i,
{
    if i < s.len() && is_digit_char(s[i]) {
        lemma_scan_digits_bounds(s, i + 1);
    }
}

/// The value of one hexadecimal digit, or -1.
pub open spec fn hex_digit_val(c: char) -> int {
    let u = c as u32;
    if 0x30 <= u && u <= 0x39 {
        u - 0x30
    } else if 0x61 <= u && u <= 0x66 {
        u - 0x61 + 10
    } else if 0x41 <= u && u <= 0x46 {
        u - 0x41 + 10
    } else {
        -1
    }
}

/// The value of the four hexadecimal digits at `i`, or -1.
pub open spec fn hex4_val(s: Seq<char>, i: int) -> int {
    let a = hex_digit_val(s[i]);
    let b = hex_digit_val(s[i + 1]);
    let c = hex_digit_val(s[i + 2]);
    let d = hex_digit_val(s[i + 3]);
    if a < 0 || b < 0 || c < 0 || d < 0 {
        -1
    } else {
        a * 4096 + b * 256 + c * 16 + d
    }
}

/// The replacement character and consumed length of the escape sequence
/// whose backslash stands at `i`, or `None` where the escape is invalid.
pub open spec fn esc_at(s: Seq<char>, i: int) -> Option<(char, int)> {
    if i + 2 > s.len() {
        None
    } else {
        let c = s[i + 1];
        if c == '"' {
            Some(('"', 2))
        } else if c == '\\' {
            Some(('\\', 2))
        } else if c == '/' {
            Some(('/', 2))
        } else if c == 'b' {
            Some(('\u{8}', 2))
        } else if c == 'f' {
            Some(('\u{c}', 2))
        } else if c == 'n' {
            Some(('\n', 2))
        } else if c == 'r' {
            Some(('\r', 2))
        } else if c == 't' {
            Some(('\t', 2))
        } else if c == 'u' {
            if i + 6 > s.len() {
                None
            } else {
                let h = hex4_val(s, i + 2);
                if h < 0 {
                    None
                } else if 0xD800 <= h && h < 0xDC00 {
                    if i + 12 > s.len() || s[i + 6] != '\\' || s[i + 7] != 'u' {
                        None
                    } else {
                        let l = hex4_val(s, i + 8);
                        if 0xDC00 <= l && l < 0xE000 {
                            Some(
                                (
                                    (((0x10000 + (h - 0xD800) * 0x400 + (l - 0xDC00)) as u32)
                                        as char),
                                    12,
                                ),
                            )
                        } else {
                            None
                        }
                    }
                } else if 0xDC00 <= h && h < 0xE000 {
                    None
                } else {
                    Some((((h as u32) as char), 6))
                }
            }
        } else {
            None
        }
    }
}

/// The decoded body of the string literal whose opening quote stands just
/// before `i`, together with the position after the closing quote.
#[verifier::rlimit(60)]
pub open spec fn parse_string(s: Seq<char>, i: int) -> Option<(Seq<char>, int)>
    decreases s.len() - i,
{
    if i < 0 || i >= s.len() {
        None
    } else if s[i] == '"' {
        Some((Seq::empty(), i + 1))
    } else if s[i] == '\\' {
        match esc_at(s, i) {
            None => None,
            Some((c, k)) => match parse_string(s, i + k) {
                None => None,
                Some((rest, j)) => Some((seq![c] + rest, j)),
            },
        }
    } else if (s[i] as u32) < 0x20 {
        None
    } else {
        match parse_string(s, i + 1) {
            None => None,
            Some((rest, j)) => Some((seq![s[i]] + rest, j)),
        }
    }
}

#[verifier::rlimit(60)]
pub proof fn lemma_parse_string_bounds(s: Seq<char>, i: int)
    ensures
        parse_string(s, i) matches Some(p) ==> i < p.1 <= s.len(),
    decreases s.len() - i,
{
    if 0 <= i < s.len() {
        if s[i] == '\\' {
            match esc_at(s, i) {
                Some((c, k)) => {
                    lemma_parse_string_bounds(s, i + k);
                },
                None => {},
            }
        } else {
            lemma_parse_string_bounds(s, i + 1);
        }
    }
}

/// The end of the fraction part beginning at `j`, if well-formed.
pub open spec fn frac_end(s: Seq<char>, j: int) -> Option<int> {
    if 0 <= j < s.len() && s[j] == '.' {
        let d = scan_digits(s, j + 1);
        if d == j + 1 {
            None
        } else {
            Some(d)
        }
    } else {
        Some(j)
    }
}

/// The end of the exponent part beginning at `j`, if well-formed.
pub open spec fn exp_end(s: Seq<char>, j: int) -> Option<int> {
    if 0 <= j < s.len() && (s[j] == 'e' || s[j] == 'E') {
        let k = if j + 1 < s.len() && (s[j + 1] == '+' || s[j + 1] == '-') {
            j + 2
        } else {
            j + 1
        };
        let d = scan_digits(s, k);
        if d == k {
            None
        } else {
            Some(d)
        }
    } else {
        Some(j)
    }
}

/// The end of the number lexeme beginning at `i`, if well-formed.
pub open spec fn number_end(s: Seq<char>, i: int) -> Option<int> {
    let istart = if 0 <= i < s.len() && s[i] == '-' {
        i + 1
    } else {
        i
    };
    if !(0 <= istart < s.len()) || !is_digit_char(s[istart]) {
        None
    } else {
        let j1 = if s[istart] == '0' {
            istart + 1
        } else {
            scan_digits(s, istart)
        };
        match frac_end(s, j1) {
            None => None,
            Some(j2) => exp_end(s, j2),
        }
    }
}

pub proof fn lemma_number_end_bounds(s: Seq<char>, i: int)
    requires
        0 <= i <= s.len(),
    ensures
        number_end(s, i) matches Some(j) ==> i < j <= s.len(),
{
    let istart = if 0 <= i < s.len() && s[i] == '-' {
        i + 1
    } else {
        i
    };
    if 0 <= istart < s.len() && is_digit_char(s[istart]) {
        let j1 = if s[istart] == '0' {
            istart + 1
        } else {
            scan_digits(s, istart)
        };
        lemma_scan_digits_bounds(s, istart);
        assert(istart < j1 <= s.len()) by {
            if s[istart] != '0' {
                assert(scan_digits(s, istart) == scan_digits(s, istart + 1));
                lemma_scan_digits_bounds(s, istart + 1);
            }
        };
        match frac_end(s, j1) {
            Some(j2) => {
                assert(j1 <= j2 <= s.len()) by {
                    if 0 <= j1 < s.len() && s[j1] == '.' {
                        lemma_scan_digits_bounds(s, j1 + 1);
                    }
                };
                match exp_end(s, j2) {
                    Some(j3) => {
                        assert(j2 <= j3 <= s.len()) by {
                            if 0 <= j2 < s.len() && (s[j2] == 'e' || s[j2] == 'E') {
                                let k = if j2 + 1 < s.len() && (s[j2 + 1] == '+' || s[j2 + 1]
                                    == '-') {
                                    j2 + 2
                                } else {
                                    j2 + 1
                                };
                                lemma_scan_digits_bounds(s, k);
                            }
                        };
                    },
                    None => {},
                }
            },
            None => {},
        }
    }
}

/// The document whose first value stands at `i` (no leading whitespace),
/// with the position just after it.  `fuel` bounds the recursion; the
/// reader hands it a budget no input in memory can exhaust.
pub open spec fn parse_value(s: Seq<char>, i: int, fuel: nat) -> Option<(JsonModel, int)>
    decreases fuel,
{
    if fuel == 0 {
        None
    } else if i < 0 || i >= s.len() {
        None
    } else {
        let c = s[i];
        if c == 'n' {
            if i + 4 <= s.len() && s[i + 1] == 'u' && s[i + 2] == 'l' && s[i + 3] == 'l' {
                Some((JsonModel::Null, i + 4))
            } else {
                None
            }
        } else if c == 't' {
            if i + 4 <= s.len() && s[i + 1] == 'r' && s[i + 2] == 'u' && s[i + 3] == 'e' {
                Some((JsonModel::Bool(true), i + 4))
            } else {
                None
            }
        } else if c == 'f' {
            if i + 5 <= s.len() && s[i + 1] == 'a' && s[i + 2] == 'l' && s[i + 3] == 's' && s[i + 4]
                == 'e' {
                Some((JsonModel::Bool(false), i + 5))
            } else {
                None
            }
        } else if c == '"' {
            match parse_string(s, i + 1) {
                None => None,
                Some((t, j)) => Some((JsonModel::Str(t), j)),
            }
        } else if c == '[' {
            let j = skip_ws(s, i + 1);
            if j < s.len() && s[j] == ']' {
                Some((JsonModel::Arr(Seq::empty()), j + 1))
            } else {
                match parse_elems(s, i + 1, (fuel - 1) as nat) {
                    None => None,
                    Some((items, j2)) => Some((JsonModel::Arr(items), j2)),
                }
            }
        } else if c == '{' {
            let j = skip_ws(s, i + 1);
            if j < s.len() && s[j] == '}' {
                Some((JsonModel::Obj(Seq::empty()), j + 1))
            } else {
                match parse_members(s, i + 1, (fuel - 1) as nat) {
                    None => None,
                    Some((members, j2)) => Some((JsonModel::Obj(members), j2)),
                }
            }
        } else if c == '-' || is_digit_char(c) {
            match number_end(s, i) {
                None => None,
                Some(j) => Some((JsonModel::Num(s.subrange(i, j)), j)),
            }
        } else {
            None
        }
    }
}

/// The remaining elements of an array, from the first character after the
/// opening bracket or a separating comma, closing bracket included.
pub open spec fn parse_elems(s: Seq<char>, i: int, fuel: nat) -> Option<(Seq<JsonModel>, int)>
    decreases fuel,
{
    if fuel == 0 {
        None
    } else {
        let i1 = skip_ws(s, i);
        match parse_value(s, i1, (fuel - 1) as nat) {
            None => None,
            Some((v, j)) => {
                let k = skip_ws(s, j);
                if k < s.len() && s[k] == ',' {
                    match parse_elems(s, k + 1, (fuel - 1) as nat) {
                        None => None,
                        Some((rest, j2)) => Some((seq![v] + rest, j2)),
                    }
                } else if k < s.len() && s[k] == ']' {
                    Some((seq![v], k + 1))
                } else {
                    None
                }
            },
        }
    }
}

/// The remaining members of an object, from the first character after the
/// opening brace or a separating comma, closing brace included.
pub open spec fn parse_members(s: Seq<char>, i: int, fuel: nat) -> Option<
    (Seq<(Seq<char>, JsonModel)>, int),
>
    decreases fuel,
{
    if fuel == 0 {
        None
    } else {
        let i1 = skip_ws(s, i);
        if i1 < s.len() && s[i1] == '"' {
            match parse_string(s, i1 + 1) {
                None => None,
                Some((key, j)) => {
                    let k = skip_ws(s, j);
                    if k < s.len() && s[k] == ':' {
                        let k2 = skip_ws(s, k + 1);
                        match parse_value(s, k2, (fuel - 1) as nat) {
                            None => None,
                            Some((v, j2)) => {
                                let k3 = skip_ws(s, j2);
                                if k3 < s.len() && s[k3] == ',' {
                                    match parse_members(s, k3 + 1, (fuel - 1) as nat) {
                                        None => None,
                                        Some((rest, jr)) => Some((seq![(key, v)] + rest, jr)),
                                    }
                                } else if k3 < s.len() && s[k3] == '}' {
                                    Some((seq![(key, v)], k3 + 1))
                                } else {
                                    None
                                }
                            },
                        }
                    } else {
                        None
                    }
                },
            }
        } else {
            None
        }
    }
}

/// What a whole text means as JSON: one value, surrounded only by
/// whitespace, read with a recursion budget of `usize::MAX`.
pub open spec fn spec_parse_json(s: Seq<char>) -> Option<JsonModel> {
    let i = skip_ws(s, 0);
    match parse_value(s, i, usize::MAX as nat) {
        None => None,
        Some((m, j)) => if skip_ws(s, j) == s.len() {
            Some(m)
        } else {
            None
        },
    }
}

pub proof fn lemma_parse_value_bounds(s: Seq<char>, i: int, fuel: nat)
    ensures
        parse_value(s, i, fuel) matches Some(p) ==> i < p.1 <= s.len(),
    decreases fuel,
{
    if fuel > 0 && 0 <= i < s.len() {
        let c = s[i];
        if c == '"' {
            lemma_parse_string_bounds(s, i + 1);
        } else if c == '[' {
            lemma_skip_ws_bounds(s, i + 1);
            lemma_parse_elems_bounds(s, i + 1, (fuel - 1) as nat);
        } else if c == '{' {
            lemma_skip_ws_bounds(s, i + 1);
            lemma_parse_members_bounds(s, i + 1, (fuel - 1) as nat);
        } else if c == '-' || is_digit_char(c) {
            lemma_number_end_bounds(s, i);
        }
    }
}

pub proof fn lemma_parse_elems_bounds(s: Seq<char>, i: int, fuel: nat)
    requires
        0 <= i <= s.len(),
    ensures
        parse_elems(s, i, fuel) matches Some(q) ==> i < q.1 <= s.len(),
    decreases fuel,
{
    if fuel > 0 {
        let i1 = skip_ws(s, i);
        lemma_skip_ws_bounds(s, i);
        lemma_parse_value_bounds(s, i1, (fuel - 1) as nat);
        match parse_value(s, i1, (fuel - 1) as nat) {
            Some((v, j)) => {
                let k = skip_ws(s, j);
                lemma_skip_ws_bounds(s, j);
                if k < s.len() && s[k] == ',' {
                    lemma_parse_elems_bounds(s, k + 1, (fuel - 1) as nat);
                }
            },
            None => {},
        }
    }
}

pub proof fn lemma_parse_members_bounds(s: Seq<char>, i: int, fuel: nat)
    requires
        0 <= i <= s.len(),
    ensures
        parse_members(s, i, fuel) matches Some(w) ==> i < w.1 <= s.len(),
    decreases fuel,
{
    if fuel > 0 {
        let i1 = skip_ws(s, i);
        lemma_skip_ws_bounds(s, i);
        if i1 < s.len() && s[i1] == '"' {
            lemma_parse_string_bounds(s, i1 + 1);
            match parse_string(s, i1 + 1) {
                Some((key, j)) => {
                    let k = skip_ws(s, j);
                    lemma_skip_ws_bounds(s, j);
                    if k < s.len() && s[k] == ':' {
                        let k2 = skip_ws(s, k + 1);
                        lemma_skip_ws_bounds(s, k + 1);
                        lemma_parse_value_bounds(s, k2, (fuel - 1) as nat);
                        match parse_value(s, k2, (fuel - 1) as nat) {
                            Some((v, j2)) => {
                                let k3 = skip_ws(s, j2);
                                lemma_skip_ws_bounds(s, j2);
                                if k3 < s.len() && s[k3] == ',' {
                                    lemma_parse_members_bounds(s, k3 + 1, (fuel - 1) as nat);
                                }
                            },
                            None => {},
                        }
                    }
                },
                None => {},
            }
        }
    }
}


/// Relies on `String::push`: appends exactly the given character.
#[verifier::external_body]
pub(crate) fn push_char(s: &mut String, c: char)
    ensures
        final(s)@ == old(s)@ + seq![c],
{
    s.push(c);
}

/// Relies on `char::from_u32`: `Some` exactly off the surrogate range and
/// past the last scalar value, carrying that code point.
#[verifier::external_body]
fn char_from_u32(v: u32) -> (r: Option<char>)
    ensures
        match r {
            Some(c) => (c as u32) == v,
            None => 0xD800 <= v < 0xE000 || v > 0x10FFFF,
        },
{
    char::from_u32(v)
}

/// The characters of a text, as an indexable vector.
pub fn str_to_chars(s: &str) -> (v: Vec<char>)
    ensures
        v@ == s@,
{
    broadcast use vstd::string::group_string_axioms;

    let mut it = s.chars();
    let mut v: Vec<char> = Vec::new();
    proof {
        assert(v@ + it.remaining() =~= s@);
    }
    loop
        invariant
            it.decrease() is Some,
            v@ + it.remaining() == s@,
        decreases it.decrease()->0,
    {
        match it.next() {
            Some(c) => {
                v.push(c);
                proof {
                    assert(v@ + it.remaining() =~= s@);
                }
            },
            None => {
                proof {
                    assert(v@ =~= s@);
                }
                return v;
            },
        }
    }
}

fn skip_ws_x(s: &Vec<char>, i: usize) -> (r: usize)
    requires
        i <= s@.len(),
    ensures
        r as int == skip_ws(s@, i as int),
        i <= r <= s@.len(),
{
    let n = s.len();
    let mut j = i;
    while j < n && (s[j] == ' ' || s[j] == '\t' || s[j] == '\n' || s[j] == '\r')
        invariant
            i <= j <= n,
            n == s@.len(),
            skip_ws(s@, i as int) == skip_ws(s@, j as int),
        decreases n - j,
    {
        j = j + 1;
    }
    proof {
        assert(skip_ws(s@, j as int) == j as int);
    }
    j
}

fn scan_digits_x(s: &Vec<char>, i: usize) -> (r: usize)
    requires
        i <= s@.len(),
    ensures
        r as int == scan_digits(s@, i as int),
        i <= r <= s@.len(),
{
    let n = s.len();
    let mut j = i;
    while j < n && (s[j] as u32) >= 0x30 && (s[j] as u32) <= 0x39
        invariant
            i <= j <= n,
            n == s@.len(),
            scan_digits(s@, i as int) == scan_digits(s@, j as int),
        decreases n - j,
    {
        j = j + 1;
    }
    proof {
        assert(scan_digits(s@, j as int) == j as int);
    }
    j
}

fn hex4_x(s: &Vec<char>, i: usize) -> (r: Option<u32>)
    requires
        i + 4 <= s@.len(),
    ensures
        match r {
            Some(v) => hex4_val(s@, i as int) == v as int && v < 0x10000,
            None => hex4_val(s@, i as int) < 0,
        },
{
    let n = s.len();
    let a = hex_digit_x(s[i]);
    let b = hex_digit_x(s[i + 1]);
    let c = hex_digit_x(s[i + 2]);
    let d = hex_digit_x(s[i + 3]);
    match (a, b, c, d) {
        (Some(a), Some(b), Some(c), Some(d)) => Some(a * 4096 + b * 256 + c * 16 + d),
        _ => None,
    }
}

fn hex_digit_x(c: char) -> (r: Option<u32>)
    ensures
        match r {
            Some(v) => hex_digit_val(c) == v as int && v < 16,
            None => hex_digit_val(c) < 0,
        },
{
    let u = c as u32;
    if 0x30 <= u && u <= 0x39 {
        Some(u - 0x30)
    } else if 0x61 <= u && u <= 0x66 {
        Some(u - 0x61 + 10)
    } else if 0x41 <= u && u <= 0x46 {
        Some(u - 0x41 + 10)
    } else {
        None
    }
}

/// Reads the escape sequence whose backslash stands at `i`: exactly what
/// `esc_at` says of it.
fn read_escape_x(s: &Vec<char>, i: usize) -> (r: Option<(char, usize)>)
    requires
        i < s@.len(),
    ensures
        match r {
            Some(p) => esc_at(s@, i as int) == Some((p.0, p.1 as int)) && i + p.1 <= s@.len() && 2
                <= p.1,
            None => esc_at(s@, i as int) is None,
        },
{
    let n = s.len();
    if n - i < 2 {
        return None;
    }
    let c2 = s[i + 1];
    if c2 == '"' {
        Some(('"', 2))
    } else if c2 == '\\' {
        Some(('\\', 2))
    } else if c2 == '/' {
        Some(('/', 2))
    } else if c2 == 'b' {
        Some(('\u{8}', 2))
    } else if c2 == 'f' {
        Some(('\u{c}', 2))
    } else if c2 == 'n' {
        Some(('\n', 2))
    } else if c2 == 'r' {
        Some(('\r', 2))
    } else if c2 == 't' {
        Some(('\t', 2))
    } else if c2 == 'u' {
        if n - i < 6 {
            return None;
        }
        let h = match hex4_x(s, i + 2) {
            Some(h) => h,
            None => {
                return None;
            },
        };
        if 0xD800 <= h && h < 0xDC00 {
            if n - i < 12 || s[i + 6] != '\\' || s[i + 7] != 'u' {
                return None;
            }
            let l = match hex4_x(s, i + 8) {
                Some(l) => l,
                None => {
                    return None;
                },
            };
            if 0xDC00 <= l && l < 0xE000 {
                let code: u32 = 0x10000 + (h - 0xD800) * 0x400 + (l - 0xDC00);
                let ch = match char_from_u32(code) {
                    Some(ch) => ch,
                    None => {
                        proof {
                            assert(false);
                        }
                        return None;
                    },
                };
                proof {
                    vstd::utf8::char_u32_cast(ch, code);
                }
                Some((ch, 12))
            } else {
                None
            }
        } else if 0xDC00 <= h && h < 0xE000 {
            None
        } else {
            let ch = match char_from_u32(h) {
                Some(ch) => ch,
                None => {
                    proof {
                        assert(false);
                    }
                    return None;
                },
            };
            proof {
                vstd::utf8::char_u32_cast(ch, h);
            }
            Some((ch, 6))
        }
    } else {
        None
    }
}

/// Reads a string literal body beginning at `i0` (just past the opening
/// quote): exactly what `parse_string` says of it.
#[verifier::rlimit(100)]
fn parse_string_x(s: &Vec<char>, i0: usize) -> (r: Option<(String, usize)>)
    requires
        i0 <= s@.len(),
    ensures
        (match (r, parse_string(s@, i0 as int)) {
            (Some((t, j)), Some(p)) => t@ == p.0 && j as int == p.1 && j <= s@.len(),
            (None, None) => true,
            _ => false,
        }),
{
    proof {
        lemma_parse_string_bounds(s@, i0 as int);
    }
    let n = s.len();
    let mut i = i0;
    let mut out = String::new();
    loop
        invariant
            i0 <= i <= n,
            n == s@.len(),
            (match parse_string(s@, i as int) {
                Some(p) => parse_string(s@, i0 as int) matches Some(q) && q.0 == out@ + p.0
                    && q.1 == p.1,
                None => parse_string(s@, i0 as int) is None,
            }),
        decreases n - i,
    {
        if i >= n {
            return None;
        }
        let c = s[i];
        if c == '"' {
            proof {
                assert(parse_string(s@, i as int) == Some((Seq::<char>::empty(), i + 1 as int)));
                assert(out@ + Seq::<char>::empty() =~= out@);
            }
            return Some((out, i + 1));
        } else if c == '\\' {
            match read_escape_x(s, i) {
                None => {
                    return None;
                },
                Some((ch, k)) => {
                    push_char(&mut out, ch);
                    proof {
                        assert(esc_at(s@, i as int) == Some((ch, k as int)));
                    }
                    i = i + k;
                },
            }
        } else if (c as u32) < 0x20 {
            return None;
        } else {
            push_char(&mut out, c);
            i = i + 1;
        }
    }
}

fn number_end_x(s: &Vec<char>, i: usize) -> (r: Option<usize>)
    requires
        i < s@.len(),
    ensures
        match r {
            Some(j) => number_end(s@, i as int) == Some(j as int) && i < j <= s@.len(),
            None => number_end(s@, i as int) is None,
        },
{
    proof {
        lemma_number_end_bounds(s@, i as int);
    }
    let n = s.len();
    let istart = if s[i] == '-' {
        i + 1
    } else {
        i
    };
    if istart >= n {
        return None;
    }
    let c0 = s[istart];
    if !((c0 as u32) >= 0x30 && (c0 as u32) <= 0x39) {
        return None;
    }
    let j1 = if c0 == '0' {
        istart + 1
    } else {
        scan_digits_x(s, istart)
    };
    let j2 = if j1 < n && s[j1] == '.' {
        let d = scan_digits_x(s, j1 + 1);
        if d == j1 + 1 {
            return None;
        }
        d
    } else {
        j1
    };
    proof {
        assert(frac_end(s@, j1 as int) == Some(j2 as int));
    }
    let j3 = if j2 < n && (s[j2] == 'e' || s[j2] == 'E') {
        let k = if j2 + 1 < n && (s[j2 + 1] == '+' || s[j2 + 1] == '-') {
            j2 + 2
        } else {
            j2 + 1
        };
        let d = scan_digits_x(s, k);
        if d == k {
            return None;
        }
        d
    } else {
        j2
    };
    proof {
        assert(exp_end(s@, j2 as int) == Some(j3 as int));
    }
    Some(j3)
}

/// Reads one value beginning at `i` (no leading whitespace): exactly what
/// `parse_value` says of it.
fn parse_value_x(s: &Vec<char>, i: usize, fuel: usize) -> (r: Option<(Json, usize)>)
    requires
        i <= s@.len(),
    ensures
        (match (r, parse_value(s@, i as int, fuel as nat)) {
            (Some((v, j)), Some(p)) => v@ == p.0 && j as int == p.1 && i < j <= s@.len(),
            (None, None) => true,
            _ => false,
        }),
    decreases fuel,
{
    proof {
        lemma_parse_value_bounds(s@, i as int, fuel as nat);
    }
    if fuel == 0 {
        return None;
    }
    let n = s.len();
    if i >= n {
        return None;
    }
    let c = s[i];
    if c == 'n' {
        if n - i >= 4 && s[i + 1] == 'u' && s[i + 2] == 'l' && s[i + 3] == 'l' {
            Some((Json::Null, i + 4))
        } else {
            None
        }
    } else if c == 't' {
        if n - i >= 4 && s[i + 1] == 'r' && s[i + 2] == 'u' && s[i + 3] == 'e' {
            Some((Json::Bool(true), i + 4))
        } else {
            None
        }
    } else if c == 'f' {
        if n - i >= 5 && s[i + 1] == 'a' && s[i + 2] == 'l' && s[i + 3] == 's' && s[i + 4] == 'e' {
            Some((Json::Bool(false), i + 5))
        } else {
            None
        }
    } else if c == '"' {
        match parse_string_x(s, i + 1) {
            None => None,
            Some((t, j)) => Some((Json::Str(t), j)),
        }
    } else if c == '[' {
        let j = skip_ws_x(s, i + 1);
        if j < n && s[j] == ']' {
            let items: Vec<Json> = Vec::new();
            proof {
                assert(crate::json::model_items(items@, 0) =~= Seq::<JsonModel>::empty());
            }
            Some((Json::Arr(items), j + 1))
        } else {
            match parse_elems_x(s, i + 1, fuel - 1) {
                None => None,
                Some((items, j2)) => Some((Json::Arr(items), j2)),
            }
        }
    } else if c == '{' {
        let j = skip_ws_x(s, i + 1);
        if j < n && s[j] == '}' {
            let members: Vec<(String, Json)> = Vec::new();
            proof {
                assert(crate::json::model_members(members@, 0) =~= Seq::<
                    (Seq<char>, JsonModel),
                >::empty());
            }
            Some((Json::Obj(members), j + 1))
        } else {
            match parse_members_x(s, i + 1, fuel - 1) {
                None => None,
                Some((members, j2)) => Some((Json::Obj(members), j2)),
            }
        }
    } else if c == '-' || ((c as u32) >= 0x30 && (c as u32) <= 0x39) {
        match number_end_x(s, i) {
            None => None,
            Some(j) => {
                let mut lex = String::new();
                let mut k = i;
                while k < j
                    invariant
                        i <= k <= j <= s@.len(),
                        lex@ == s@.subrange(i as int, k as int),
                    decreases j - k,
                {
                    push_char(&mut lex, s[k]);
                    proof {
                        assert(s@.subrange(i as int, k + 1 as int) =~= s@.subrange(
                            i as int,
                            k as int,
                        ) + seq![s@[k as int]]);
                    }
                    k = k + 1;
                }
                Some((Json::Num(lex), j))
            },
        }
    } else {
        None
    }
}

/// Reads array elements from just after the opening bracket or a comma.
fn parse_elems_x(s: &Vec<char>, i: usize, fuel: usize) -> (r: Option<(Vec<Json>, usize)>)
    requires
        i <= s@.len(),
    ensures
        (match (r, parse_elems(s@, i as int, fuel as nat)) {
            (Some((items, j)), Some(p)) => crate::json::model_items(
                items@,
                items@.len() as int,
            ) == p.0 && j as int == p.1 && j <= s@.len(),
            (None, None) => true,
            _ => false,
        }),
    decreases fuel,
{
    proof {
        lemma_parse_elems_bounds(s@, i as int, fuel as nat);
    }
    if fuel == 0 {
        return None;
    }
    let n = s.len();
    let i1 = skip_ws_x(s, i);
    match parse_value_x(s, i1, fuel - 1) {
        None => None,
        Some((v, j)) => {
            let k = skip_ws_x(s, j);
            if k < n && s[k] == ',' {
                match parse_elems_x(s, k + 1, fuel - 1) {
                    None => None,
                    Some((mut rest, j2)) => {
                        let ghost rest_old = rest@;
                        let ghost vm = v@;
                        rest.insert(0, v);
                        proof {
                            crate::json::lemma_model_items_props(rest_old, rest_old.len() as int);
                            crate::json::lemma_model_items_props(rest@, rest@.len() as int);
                            assert(crate::json::model_items(rest@, rest@.len() as int) =~= seq![vm]
                                + crate::json::model_items(rest_old, rest_old.len() as int));
                        }
                        Some((rest, j2))
                    },
                }
            } else if k < n && s[k] == ']' {
                let ghost vm = v@;
                let mut one: Vec<Json> = Vec::new();
                one.push(v);
                proof {
                    crate::json::lemma_model_items_props(one@, one@.len() as int);
                    assert(crate::json::model_items(one@, one@.len() as int) =~= seq![vm]);
                }
                Some((one, k + 1))
            } else {
                None
            }
        },
    }
}

/// Reads object members from just after the opening brace or a comma.
fn parse_members_x(s: &Vec<char>, i: usize, fuel: usize) -> (r: Option<
    (Vec<(String, Json)>, usize),
>)
    requires
        i <= s@.len(),
    ensures
        (match (r, parse_members(s@, i as int, fuel as nat)) {
            (Some((members, j)), Some(p)) => crate::json::model_members(
                members@,
                members@.len() as int,
            ) == p.0 && j as int == p.1 && j <= s@.len(),
            (None, None) => true,
            _ => false,
        }),
    decreases fuel,
{
    proof {
        lemma_parse_members_bounds(s@, i as int, fuel as nat);
    }
    if fuel == 0 {
        return None;
    }
    let n = s.len();
    let i1 = skip_ws_x(s, i);
    if i1 < n && s[i1] == '"' {
        match parse_string_x(s, i1 + 1) {
            None => None,
            Some((key, j)) => {
                let k = skip_ws_x(s, j);
                if k < n && s[k] == ':' {
                    let k2 = skip_ws_x(s, k + 1);
                    match parse_value_x(s, k2, fuel - 1) {
                        None => None,
                        Some((v, j2)) => {
                            let k3 = skip_ws_x(s, j2);
                            if k3 < n && s[k3] == ',' {
                                match parse_members_x(s, k3 + 1, fuel - 1) {
                                    None => None,
                                    Some((mut rest, jr)) => {
                                        let ghost rest_old = rest@;
                                        let ghost km = key@;
                                        let ghost vm = v@;
                                        rest.insert(0, (key, v));
                                        proof {
                                            crate::json::lemma_model_members_props(
                                                rest_old,
                                                rest_old.len() as int,
                                            );
                                            crate::json::lemma_model_members_props(
                                                rest@,
                                                rest@.len() as int,
                                            );
                                            assert(crate::json::model_members(
                                                rest@,
                                                rest@.len() as int,
                                            ) =~= seq![(km, vm)] + crate::json::model_members(
                                                rest_old,
                                                rest_old.len() as int,
                                            ));
                                        }
                                        Some((rest, jr))
                                    },
                                }
                            } else if k3 < n && s[k3] == '}' {
                                let ghost km = key@;
                                let ghost vm = v@;
                                let mut one: Vec<(String, Json)> = Vec::new();
                                one.push((key, v));
                                proof {
                                    crate::json::lemma_model_members_props(
                                        one@,
                                        one@.len() as int,
                                    );
                                    assert(crate::json::model_members(one@, one@.len() as int)
                                        =~= seq![(km, vm)]);
                                }
                                Some((one, k3 + 1))
                            } else {
                                None
                            }
                        },
                    }
                } else {
                    None
                }
            },
        }
    } else {
        None
    }
}

/// Reads a whole text as one JSON document: exactly what
/// `spec_parse_json` says of it.
pub fn parse_json(s: &str) -> (r: Option<Json>)
    ensures
        (match (r, spec_parse_json(s@)) {
            (Some(v), Some(m)) => v@ == m,
            (None, None) => true,
            _ => false,
        }),
{
    let chars = str_to_chars(s);
    let i = skip_ws_x(&chars, 0);
    match parse_value_x(&chars, i, usize::MAX) {
        None => None,
        Some((v, j)) => {
            let k = skip_ws_x(&chars, j);
            if k == chars.len() {
                Some(v)
            } else {
                None
            }
        },
    }
}


/// Every character is a decimal digit.
pub open spec fn all_digits(s: Seq<char>) -> bool {
    forall|k: int| 0 <= k < s.len() ==> is_digit_char(s[k])
}

/// The value of a digit string, most significant digit first.
pub open spec fn digits_val(s: Seq<char>) -> int
    decreases s.len(),
{
    if s.len() == 0 {
        0
    } else {
        digits_val(s.drop_last()) * 10 + ((s.last() as u32) - 0x30)
    }
}

pub proof fn lemma_digits_val_nonneg(s: Seq<char>)
    requires
        all_digits(s),
    ensures
        digits_val(s) >= 0,
    decreases s.len(),
{
    if s.len() > 0 {
        assert(all_digits(s.drop_last()));
        lemma_digits_val_nonneg(s.drop_last());
    }
}

pub proof fn lemma_digits_val_prefix(s: Seq<char>, k: int)
    requires
        all_digits(s),
        0 <= k <= s.len(),
    ensures
        digits_val(s.subrange(0, k)) <= digits_val(s),
    decreases s.len() - k,
{
    if k < s.len() {
        assert(s.subrange(0, k + 1).drop_last() =~= s.subrange(0, k));
        assert(all_digits(s.subrange(0, k)));
        lemma_digits_val_nonneg(s.subrange(0, k));
        assert(digits_val(s.subrange(0, k + 1)) >= digits_val(s.subrange(0, k)));
        lemma_digits_val_prefix(s, k + 1);
    } else {
        assert(s.subrange(0, k) =~= s);
    }
}

/// The machine value of a decimal digit lexeme: `Some` exactly where the
/// lexeme is nonempty, all digits, and fits.
pub fn lexeme_u64(s: &str) -> (r: Option<u64>)
    ensures
        match r {
            Some(v) => s@.len() > 0 && all_digits(s@) && digits_val(s@) == v as int,
            None => s@.len() == 0 || !all_digits(s@) || digits_val(s@) > u64::MAX,
        },
{
    let n = s.unicode_len();
    if n == 0 {
        return None;
    }
    let mut acc: u64 = 0;
    let mut k: usize = 0;
    while k < n
        invariant
            k <= n,
            n == s@.len(),
            all_digits(s@.subrange(0, k as int)),
            digits_val(s@.subrange(0, k as int)) == acc as int,
        decreases n - k,
    {
        let c = s.get_char(k);
        let u = c as u32;
        if !(0x30 <= u && u <= 0x39) {
            proof {
                assert(!is_digit_char(s@[k as int]));
                assert(!all_digits(s@));
            }
            return None;
        }
        let d = (u - 0x30) as u64;
        proof {
            assert(s@.subrange(0, k + 1 as int).drop_last() =~= s@.subrange(0, k as int));
            assert(all_digits(s@.subrange(0, k + 1 as int)));
            assert(digits_val(s@.subrange(0, k + 1 as int)) == acc as int * 10 + d as int);
        }
        if acc > (u64::MAX - d) / 10 {
            proof {
                assert(acc as int * 10 + d as int > u64::MAX) by (nonlinear_arith)
                    requires
                        acc as int > (u64::MAX - d) as int / 10,
                        0 <= d as int <= 9,
                ;
                if all_digits(s@) {
                    lemma_digits_val_prefix(s@, k + 1);
                    assert(digits_val(s@) > u64::MAX);
                }
            }
            return None;
        }
        acc = acc * 10 + d;
        k = k + 1;
    }
    proof {
        assert(s@.subrange(0, n as int) =~= s@);
    }
    Some(acc)
}

} // verus!
