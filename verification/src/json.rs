//! A strict parser for the one JSON shape the grouping prompt demands of the
//! model: an array of arrays of strings, with nothing around it but
//! whitespace.
//!
//! The grammar is stated by the `spec_parse_*` functions, which read a
//! `Seq<char>` by index; the executable parser is proved to return exactly
//! what they describe. A canonical serializer and a round-trip proof relate
//! the two directions.

use vstd::prelude::*;
use vstd::string::StrSliceExecFns;
use crate::strutil::push_char;

verus! {

/// The four whitespace characters JSON allows between tokens.
pub open spec fn is_json_ws(c: char) -> bool {
    c == ' ' || c == '\n' || c == '\r' || c == '\t'
}

/// The value of one hexadecimal digit, or `None`.
pub open spec fn hex_val(c: char) -> Option<int> {
    let n = c as u32;
    if 48 <= n && n <= 57 {
        Some(n as int - 48)
    } else if 97 <= n && n <= 102 {
        Some(n as int - 87)
    } else if 65 <= n && n <= 70 {
        Some(n as int - 55)
    } else {
        None
    }
}

/// The character with code point `n`.
pub uninterp spec fn char_of_code(n: int) -> char;

/// Relies on `char::from_u32`: it returns `Some` exactly for values that are
/// code points (not surrogates, at most 0x10FFFF), and then the character
/// with that code point.
#[verifier::external_body]
fn char_from_code(x: u32) -> (r: Option<char>)
    ensures
        r is Some <==> (x < 0xD800 || (0xE000 <= x && x <= 0x10FFFF)),
        r is Some ==> r == Some(char_of_code(x as int)),
{
    char::from_u32(x)
}

/// First index at or after `i` holding no whitespace, at most `s.len()`.
pub open spec fn spec_skip_ws(s: Seq<char>, i: int) -> int
    decreases s.len() - i when 0 <= i <= s.len()
{
    if i < s.len() && is_json_ws(s[i]) {
        spec_skip_ws(s, i + 1)
    } else {
        i
    }
}

pub proof fn lemma_skip_ws_bounds(s: Seq<char>, i: int)
    requires
        0 <= i <= s.len(),
    ensures
        i <= spec_skip_ws(s, i) <= s.len(),
    decreases s.len() - i,
{
    if i < s.len() && is_json_ws(s[i]) {
        lemma_skip_ws_bounds(s, i + 1);
    }
}

/// Four hexadecimal digits starting at `i`, as a number.
pub open spec fn spec_hex4(s: Seq<char>, i: int) -> Option<int> {
    if 0 <= i && i + 4 <= s.len() {
        match (hex_val(s[i]), hex_val(s[i + 1]), hex_val(s[i + 2]), hex_val(s[i + 3])) {
            (Some(a), Some(b), Some(c), Some(d)) => Some(a * 4096 + b * 256 + c * 16 + d),
            _ => None,
        }
    } else {
        None
    }
}

/// The escape after `\u`, `i` pointing at the first hex digit: a plain code
/// point, or a surrogate pair written as two `\u` escapes. A lone surrogate
/// is an error.
pub open spec fn spec_parse_unicode_escape(s: Seq<char>, i: int) -> Option<(char, int)> {
    match spec_hex4(s, i) {
        Some(n) => {
            if n < 0xD800 || n > 0xDFFF {
                Some((char_of_code(n), i + 4))
            } else if n >= 0xDC00 {
                None
            } else if i + 6 <= s.len() && s[i + 4] == '\\' && s[i + 5] == 'u' {
                match spec_hex4(s, i + 6) {
                    Some(m) => if 0xDC00 <= m && m <= 0xDFFF {
                        Some(
                            (
                                char_of_code(0x10000 + (n - 0xD800) * 0x400 + (m - 0xDC00)),
                                i + 10,
                            ),
                        )
                    } else {
                        None
                    },
                    None => None,
                }
            } else {
                None
            }
        },
        None => None,
    }
}

/// The escape after a backslash, `i` pointing at the character that follows
/// the backslash. Yields the decoded character and the index after the
/// escape.
pub open spec fn spec_parse_escape(s: Seq<char>, i: int) -> Option<(char, int)> {
    if 0 <= i < s.len() {
        let e = s[i];
        if e == '"' {
            Some(('"', i + 1))
        } else if e == '\\' {
            Some(('\\', i + 1))
        } else if e == '/' {
            Some(('/', i + 1))
        } else if e == 'b' {
            Some(('\u{0008}', i + 1))
        } else if e == 'f' {
            Some(('\u{000c}', i + 1))
        } else if e == 'n' {
            Some(('\n', i + 1))
        } else if e == 'r' {
            Some(('\r', i + 1))
        } else if e == 't' {
            Some(('\t', i + 1))
        } else if e == 'u' {
            spec_parse_unicode_escape(s, i + 1)
        } else {
            None
        }
    } else {
        None
    }
}

pub proof fn lemma_escape_bounds(s: Seq<char>, i: int)
    ensures
        spec_parse_escape(s, i) matches Some((c, j)) ==> i + 1 <= j <= s.len(),
{
}

/// The rest of a string once its opening quote is consumed: the decoded
/// characters, and the index after the closing quote. An unescaped control
/// character or a bad escape is an error.
pub open spec fn spec_parse_string_body(s: Seq<char>, i: int) -> Option<(Seq<char>, int)>
    decreases s.len() - i when 0 <= i
{
    if i >= s.len() {
        None
    } else if s[i] == '"' {
        Some((Seq::empty(), i + 1))
    } else if s[i] == '\\' {
        match spec_parse_escape(s, i + 1) {
            Some((c, j)) => {
                proof {
                    lemma_escape_bounds(s, i + 1);
                }
                match spec_parse_string_body(s, j) {
                    Some((rest, k)) => Some((seq![c] + rest, k)),
                    None => None,
                }
            },
            None => None,
        }
    } else if (s[i] as u32) < 0x20 {
        None
    } else {
        match spec_parse_string_body(s, i + 1) {
            Some((rest, k)) => Some((seq![s[i]] + rest, k)),
            None => None,
        }
    }
}

pub proof fn lemma_string_body_bounds(s: Seq<char>, i: int)
    requires
        0 <= i,
    ensures
        spec_parse_string_body(s, i) matches Some((cs, j)) ==> i < j <= s.len(),
    decreases s.len() - i,
{
    if i < s.len() && s[i] == '\\' {
        lemma_escape_bounds(s, i + 1);
        match spec_parse_escape(s, i + 1) {
            Some((c, j)) => {
                lemma_string_body_bounds(s, j);
            },
            None => {},
        }
    } else if i < s.len() && s[i] != '"' {
        lemma_string_body_bounds(s, i + 1);
    }
}

/// A whole string literal at `i`, opening quote included.
pub open spec fn spec_parse_string_at(s: Seq<char>, i: int) -> Option<(Seq<char>, int)> {
    if 0 <= i < s.len() && s[i] == '"' {
        spec_parse_string_body(s, i + 1)
    } else {
        None
    }
}

pub proof fn lemma_string_at_bounds(s: Seq<char>, i: int)
    ensures
        spec_parse_string_at(s, i) matches Some((cs, j)) ==> i + 1 < j <= s.len(),
{
    if 0 <= i < s.len() && s[i] == '"' {
        lemma_string_body_bounds(s, i + 1);
    }
}

/// One or more comma-separated strings followed by `]`, starting at the
/// first string.
pub open spec fn spec_parse_inner_items(s: Seq<char>, i: int) -> Option<(Seq<Seq<char>>, int)>
    decreases s.len() - i when 0 <= i <= s.len()
{
    match spec_parse_string_at(s, i) {
        Some((cs, j)) => {
            proof {
                lemma_string_at_bounds(s, i);
                lemma_skip_ws_bounds(s, j);
            }
            let k = spec_skip_ws(s, j);
            if k < s.len() && s[k] == ',' {
                proof {
                    lemma_skip_ws_bounds(s, k + 1);
                }
                let m = spec_skip_ws(s, k + 1);
                match spec_parse_inner_items(s, m) {
                    Some((rest, e)) => Some((seq![cs] + rest, e)),
                    None => None,
                }
            } else if k < s.len() && s[k] == ']' {
                Some((seq![cs], k + 1))
            } else {
                None
            }
        },
        None => None,
    }
}

pub proof fn lemma_inner_items_bounds(s: Seq<char>, i: int)
    requires
        0 <= i <= s.len(),
    ensures
        spec_parse_inner_items(s, i) matches Some((g, j)) ==> i < j <= s.len(),
    decreases s.len() - i,
{
    lemma_string_at_bounds(s, i);
    match spec_parse_string_at(s, i) {
        Some((cs, j)) => {
            lemma_skip_ws_bounds(s, j);
            let k = spec_skip_ws(s, j);
            if k < s.len() && s[k] == ',' {
                lemma_skip_ws_bounds(s, k + 1);
                let m = spec_skip_ws(s, k + 1);
                lemma_inner_items_bounds(s, m);
            }
        },
        None => {},
    }
}

/// An array of strings at `i`, brackets included.
pub open spec fn spec_parse_inner(s: Seq<char>, i: int) -> Option<(Seq<Seq<char>>, int)> {
    if 0 <= i < s.len() && s[i] == '[' {
        let j = spec_skip_ws(s, i + 1);
        if j < s.len() && s[j] == ']' {
            Some((Seq::empty(), j + 1))
        } else {
            spec_parse_inner_items(s, j)
        }
    } else {
        None
    }
}

pub proof fn lemma_inner_bounds(s: Seq<char>, i: int)
    ensures
        spec_parse_inner(s, i) matches Some((g, j)) ==> i < j <= s.len(),
{
    if 0 <= i < s.len() && s[i] == '[' {
        lemma_skip_ws_bounds(s, i + 1);
        lemma_inner_items_bounds(s, spec_skip_ws(s, i + 1));
    }
}

/// One or more comma-separated arrays of strings followed by `]`, starting
/// at the first array.
pub open spec fn spec_parse_outer_items(s: Seq<char>, i: int) -> Option<
    (Seq<Seq<Seq<char>>>, int),
>
    decreases s.len() - i when 0 <= i <= s.len()
{
    match spec_parse_inner(s, i) {
        Some((g, j)) => {
            proof {
                lemma_inner_bounds(s, i);
                lemma_skip_ws_bounds(s, j);
            }
            let k = spec_skip_ws(s, j);
            if k < s.len() && s[k] == ',' {
                proof {
                    lemma_skip_ws_bounds(s, k + 1);
                }
                let m = spec_skip_ws(s, k + 1);
                match spec_parse_outer_items(s, m) {
                    Some((rest, e)) => Some((seq![g] + rest, e)),
                    None => None,
                }
            } else if k < s.len() && s[k] == ']' {
                Some((seq![g], k + 1))
            } else {
                None
            }
        },
        None => None,
    }
}

pub proof fn lemma_outer_items_bounds(s: Seq<char>, i: int)
    requires
        0 <= i <= s.len(),
    ensures
        spec_parse_outer_items(s, i) matches Some((g, j)) ==> i < j <= s.len(),
    decreases s.len() - i,
{
    lemma_inner_bounds(s, i);
    match spec_parse_inner(s, i) {
        Some((g, j)) => {
            lemma_skip_ws_bounds(s, j);
            let k = spec_skip_ws(s, j);
            if k < s.len() && s[k] == ',' {
                lemma_skip_ws_bounds(s, k + 1);
                lemma_outer_items_bounds(s, spec_skip_ws(s, k + 1));
            }
        },
        None => {},
    }
}

/// An array of arrays of strings at `i`, brackets included.
pub open spec fn spec_parse_outer(s: Seq<char>, i: int) -> Option<(Seq<Seq<Seq<char>>>, int)> {
    if 0 <= i < s.len() && s[i] == '[' {
        let j = spec_skip_ws(s, i + 1);
        if j < s.len() && s[j] == ']' {
            Some((Seq::empty(), j + 1))
        } else {
            spec_parse_outer_items(s, j)
        }
    } else {
        None
    }
}

pub proof fn lemma_outer_bounds(s: Seq<char>, i: int)
    ensures
        spec_parse_outer(s, i) matches Some((g, j)) ==> i < j <= s.len(),
{
    if 0 <= i < s.len() && s[i] == '[' {
        lemma_skip_ws_bounds(s, i + 1);
        lemma_outer_items_bounds(s, spec_skip_ws(s, i + 1));
    }
}

/// A whole response read as a grouping: one array of arrays of strings, with
/// nothing around it but whitespace.
pub open spec fn spec_parse_groups(s: Seq<char>) -> Option<Seq<Seq<Seq<char>>>> {
    let i = spec_skip_ws(s, 0);
    match spec_parse_outer(s, i) {
        Some((g, j)) => if spec_skip_ws(s, j) == s.len() {
            Some(g)
        } else {
            None
        },
        None => None,
    }
}

// ---------------------------------------------------------------------------
// The executable parser, proved equal to the grammar above.
// ---------------------------------------------------------------------------

fn is_ws_char(c: char) -> (r: bool)
    ensures
        r == is_json_ws(c),
{
    c == ' ' || c == '\n' || c == '\r' || c == '\t'
}

fn skip_ws(s: &str, n: usize, i: usize) -> (r: usize)
    requires
        n == s@.len(),
        i <= n,
    ensures
        r == spec_skip_ws(s@, i as int),
        i <= r <= n,
{
    let mut j = i;
    while j < n && is_ws_char(s.get_char(j))
        invariant
            i <= j <= n,
            n == s@.len(),
            spec_skip_ws(s@, i as int) == spec_skip_ws(s@, j as int),
        decreases n - j,
    {
        j = j + 1;
    }
    j
}

fn hex_digit(c: char) -> (r: Option<u32>)
    ensures
        match r {
            Some(v) => hex_val(c) == Some(v as int) && v < 16,
            None => hex_val(c) is None,
        },
{
    let n = c as u32;
    if 48 <= n && n <= 57 {
        Some(n - 48)
    } else if 97 <= n && n <= 102 {
        Some(n - 87)
    } else if 65 <= n && n <= 70 {
        Some(n - 55)
    } else {
        None
    }
}

fn hex4(s: &str, n: usize, i: usize) -> (r: Option<u32>)
    requires
        n == s@.len(),
        i <= n,
    ensures
        match r {
            Some(v) => spec_hex4(s@, i as int) == Some(v as int) && v <= 0xFFFF && i + 4 <= n,
            None => spec_hex4(s@, i as int) is None,
        },
{
    if n < 4 || i > n - 4 {
        return None;
    }
    let a = hex_digit(s.get_char(i));
    let b = hex_digit(s.get_char(i + 1));
    let c = hex_digit(s.get_char(i + 2));
    let d = hex_digit(s.get_char(i + 3));
    match (a, b, c, d) {
        (Some(a), Some(b), Some(c), Some(d)) => Some(a * 4096 + b * 256 + c * 16 + d),
        _ => None,
    }
}

fn parse_unicode_escape(s: &str, n: usize, i: usize) -> (r: Option<(char, usize)>)
    requires
        n == s@.len(),
        i <= n,
    ensures
        match r {
            Some((c, j)) => spec_parse_unicode_escape(s@, i as int) == Some((c, j as int)) && i
                < j <= n,
            None => spec_parse_unicode_escape(s@, i as int) is None,
        },
{
    let first = match hex4(s, n, i) {
        Some(v) => v,
        None => {
            return None;
        },
    };
    if first < 0xD800 || first > 0xDFFF {
        match char_from_code(first) {
            Some(c) => Some((c, i + 4)),
            None => {
                proof {
                    assert(false);
                }
                None
            },
        }
    } else if first >= 0xDC00 {
        None
    } else if n - i >= 6 && s.get_char(i + 4) == '\\' && s.get_char(i + 5) == 'u' {
        let second = match hex4(s, n, i + 6) {
            Some(v) => v,
            None => {
                return None;
            },
        };
        if 0xDC00 <= second && second <= 0xDFFF {
            let code: u32 = 0x10000 + (first - 0xD800) * 0x400 + (second - 0xDC00);
            match char_from_code(code) {
                Some(c) => Some((c, i + 10)),
                None => {
                    proof {
                        assert(false);
                    }
                    None
                },
            }
        } else {
            None
        }
    } else {
        None
    }
}

fn parse_escape(s: &str, n: usize, i: usize) -> (r: Option<(char, usize)>)
    requires
        n == s@.len(),
        i <= n,
    ensures
        match r {
            Some((c, j)) => spec_parse_escape(s@, i as int) == Some((c, j as int)) && i < j
                <= n,
            None => spec_parse_escape(s@, i as int) is None,
        },
{
    if i >= n {
        return None;
    }
    let e = s.get_char(i);
    if e == '"' {
        Some(('"', i + 1))
    } else if e == '\\' {
        Some(('\\', i + 1))
    } else if e == '/' {
        Some(('/', i + 1))
    } else if e == 'b' {
        Some(('\u{0008}', i + 1))
    } else if e == 'f' {
        Some(('\u{000c}', i + 1))
    } else if e == 'n' {
        Some(('\n', i + 1))
    } else if e == 'r' {
        Some(('\r', i + 1))
    } else if e == 't' {
        Some(('\t', i + 1))
    } else if e == 'u' {
        parse_unicode_escape(s, n, i + 1)
    } else {
        None
    }
}

fn parse_string_body(s: &str, n: usize, start: usize) -> (r: Option<(String, usize)>)
    requires
        n == s@.len(),
        start <= n,
    ensures
        match r {
            Some((cs, j)) => spec_parse_string_body(s@, start as int) == Some((cs@, j as int))
                && start < j <= n,
            None => spec_parse_string_body(s@, start as int) is None,
        },
{
    let mut acc = String::new();
    let mut i = start;
    loop
        invariant
            start <= i <= n,
            n == s@.len(),
            spec_parse_string_body(s@, start as int) == (match spec_parse_string_body(
                s@,
                i as int,
            ) {
                Some((cs, j)) => Some((acc@ + cs, j)),
                None => None::<(Seq<char>, int)>,
            }),
        decreases n - i,
    {
        if i >= n {
            return None;
        }
        let c = s.get_char(i);
        if c == '"' {
            proof {
                assert(acc@ + Seq::<char>::empty() =~= acc@);
                lemma_string_body_bounds(s@, start as int);
            }
            return Some((acc, i + 1));
        } else if c == '\\' {
            match parse_escape(s, n, i + 1) {
                Some((ch, j)) => {
                    proof {
                        match spec_parse_string_body(s@, j as int) {
                            Some((rest, k)) => {
                                assert((acc@ + seq![ch]) + rest =~= acc@ + (seq![ch] + rest));
                            },
                            None => {},
                        }
                    }
                    push_char(&mut acc, ch);
                    i = j;
                },
                None => {
                    return None;
                },
            }
        } else if (c as u32) < 0x20 {
            return None;
        } else {
            proof {
                match spec_parse_string_body(s@, i + 1 as int) {
                    Some((rest, k)) => {
                        assert((acc@ + seq![c]) + rest =~= acc@ + (seq![c] + rest));
                    },
                    None => {},
                }
            }
            push_char(&mut acc, c);
            i = i + 1;
        }
    }
}

fn parse_string_at(s: &str, n: usize, i: usize) -> (r: Option<(String, usize)>)
    requires
        n == s@.len(),
        i <= n,
    ensures
        match r {
            Some((cs, j)) => spec_parse_string_at(s@, i as int) == Some((cs@, j as int)) && i + 1
                < j <= n,
            None => spec_parse_string_at(s@, i as int) is None,
        },
{
    if i >= n || s.get_char(i) != '"' {
        return None;
    }
    parse_string_body(s, n, i + 1)
}

fn parse_inner(s: &str, n: usize, i: usize) -> (r: Option<(Vec<String>, usize)>)
    requires
        n == s@.len(),
        i <= n,
    ensures
        match r {
            Some((v, j)) => spec_parse_inner(s@, i as int) == Some((v.deep_view(), j as int))
                && i < j <= n,
            None => spec_parse_inner(s@, i as int) is None,
        },
{
    if i >= n || s.get_char(i) != '[' {
        return None;
    }
    let j = skip_ws(s, n, i + 1);
    if j < n && s.get_char(j) == ']' {
        let v: Vec<String> = Vec::new();
        proof {
            assert(v.deep_view() =~= Seq::<Seq<char>>::empty());
        }
        return Some((v, j + 1));
    }
    let mut items: Vec<String> = Vec::new();
    let mut pos = j;
    loop
        invariant
            i < j <= pos <= n,
            n == s@.len(),
            spec_parse_inner(s@, i as int) == (match spec_parse_inner_items(s@, pos as int) {
                Some((rest, e)) => Some((items.deep_view() + rest, e)),
                None => None::<(Seq<Seq<char>>, int)>,
            }),
        decreases n - pos,
    {
        match parse_string_at(s, n, pos) {
            None => {
                return None;
            },
            Some((cs, p2)) => {
                let k = skip_ws(s, n, p2);
                if k < n && s.get_char(k) == ',' {
                    let m = skip_ws(s, n, k + 1);
                    proof {
                        let ghost old_items = items.deep_view();
                        match spec_parse_inner_items(s@, m as int) {
                            Some((rest, e)) => {
                                assert((old_items.push(cs@)) + rest =~= old_items + (seq![cs@]
                                    + rest));
                            },
                            None => {},
                        }
                    }
                    let ghost old_deep = items.deep_view();
                    items.push(cs);
                    proof {
                        assert(items.deep_view() =~= old_deep.push(cs@));
                    }
                    pos = m;
                } else if k < n && s.get_char(k) == ']' {
                    let ghost old_deep = items.deep_view();
                    items.push(cs);
                    proof {
                        assert(items.deep_view() =~= old_deep.push(cs@));
                        assert(old_deep.push(cs@) =~= old_deep + seq![cs@]);
                    }
                    return Some((items, k + 1));
                } else {
                    return None;
                }
            },
        }
    }
}

fn parse_outer(s: &str, n: usize, i: usize) -> (r: Option<(Vec<Vec<String>>, usize)>)
    requires
        n == s@.len(),
        i <= n,
    ensures
        match r {
            Some((v, j)) => spec_parse_outer(s@, i as int) == Some((v.deep_view(), j as int))
                && i < j <= n,
            None => spec_parse_outer(s@, i as int) is None,
        },
{
    if i >= n || s.get_char(i) != '[' {
        return None;
    }
    let j = skip_ws(s, n, i + 1);
    if j < n && s.get_char(j) == ']' {
        let v: Vec<Vec<String>> = Vec::new();
        proof {
            assert(v.deep_view() =~= Seq::<Seq<Seq<char>>>::empty());
        }
        return Some((v, j + 1));
    }
    let mut items: Vec<Vec<String>> = Vec::new();
    let mut pos = j;
    loop
        invariant
            i < j <= pos <= n,
            n == s@.len(),
            spec_parse_outer(s@, i as int) == (match spec_parse_outer_items(s@, pos as int) {
                Some((rest, e)) => Some((items.deep_view() + rest, e)),
                None => None::<(Seq<Seq<Seq<char>>>, int)>,
            }),
        decreases n - pos,
    {
        match parse_inner(s, n, pos) {
            None => {
                return None;
            },
            Some((g, p2)) => {
                let k = skip_ws(s, n, p2);
                if k < n && s.get_char(k) == ',' {
                    let m = skip_ws(s, n, k + 1);
                    proof {
                        let ghost old_items = items.deep_view();
                        match spec_parse_outer_items(s@, m as int) {
                            Some((rest, e)) => {
                                assert((old_items.push(g.deep_view())) + rest =~= old_items + (
                                seq![g.deep_view()] + rest));
                            },
                            None => {},
                        }
                    }
                    let ghost old_deep = items.deep_view();
                    items.push(g);
                    proof {
                        assert(items.deep_view() =~= old_deep.push(g.deep_view()));
                    }
                    pos = m;
                } else if k < n && s.get_char(k) == ']' {
                    let ghost old_deep = items.deep_view();
                    items.push(g);
                    proof {
                        assert(items.deep_view() =~= old_deep.push(g.deep_view()));
                        assert(old_deep.push(g.deep_view()) =~= old_deep + seq![g.deep_view()]);
                    }
                    return Some((items, k + 1));
                } else {
                    return None;
                }
            },
        }
    }
}

/// Parse a whole model reply as a grouping, strictly: exactly one JSON array
/// of arrays of strings, with nothing around it but whitespace.
pub fn parse_groups(s: &str) -> (r: Option<Vec<Vec<String>>>)
    ensures
        match r {
            Some(v) => spec_parse_groups(s@) == Some(v.deep_view()),
            None => spec_parse_groups(s@) is None,
        },
{
    let n = s.unicode_len();
    let i = skip_ws(s, n, 0);
    match parse_outer(s, n, i) {
        Some((v, j)) => {
            let k = skip_ws(s, n, j);
            if k == n {
                Some(v)
            } else {
                None
            }
        },
        None => None,
    }
}

// ---------------------------------------------------------------------------
// Canonical serialization, and the round trip back through the parser.
// ---------------------------------------------------------------------------

/// A character a JSON string can carry without escaping.
pub open spec fn plain_json_char(c: char) -> bool {
    c != '"' && c != '\\' && (c as u32) >= 0x20
}

pub open spec fn plain_string(cs: Seq<char>) -> bool {
    forall|k: int| 0 <= k < cs.len() ==> plain_json_char(#[trigger] cs[k])
}

pub open spec fn plain_inner(g: Seq<Seq<char>>) -> bool {
    forall|a: int| 0 <= a < g.len() ==> plain_string(#[trigger] g[a])
}

pub open spec fn plain_groups(gs: Seq<Seq<Seq<char>>>) -> bool {
    forall|a: int| 0 <= a < gs.len() ==> plain_inner(#[trigger] gs[a])
}

/// The canonical form of one string: just quotes around the characters.
pub open spec fn spec_ser_string(cs: Seq<char>) -> Seq<char> {
    seq!['"'] + cs + seq!['"']
}

pub open spec fn spec_ser_inner_items(g: Seq<Seq<char>>) -> Seq<char>
    decreases g.len(),
{
    if g.len() == 0 {
        Seq::empty()
    } else if g.len() == 1 {
        spec_ser_string(g[0])
    } else {
        spec_ser_string(g[0]) + seq![','] + spec_ser_inner_items(g.drop_first())
    }
}

pub open spec fn spec_ser_inner(g: Seq<Seq<char>>) -> Seq<char> {
    seq!['['] + spec_ser_inner_items(g) + seq![']']
}

pub open spec fn spec_ser_outer_items(gs: Seq<Seq<Seq<char>>>) -> Seq<char>
    decreases gs.len(),
{
    if gs.len() == 0 {
        Seq::empty()
    } else if gs.len() == 1 {
        spec_ser_inner(gs[0])
    } else {
        spec_ser_inner(gs[0]) + seq![','] + spec_ser_outer_items(gs.drop_first())
    }
}

/// The canonical form of a grouping: no whitespace, no escapes.
pub open spec fn spec_ser_groups(gs: Seq<Seq<Seq<char>>>) -> Seq<char> {
    seq!['['] + spec_ser_outer_items(gs) + seq![']']
}

proof fn lemma_ser_inner_items_first(h: Seq<Seq<char>>)
    requires
        h.len() > 0,
    ensures
        spec_ser_inner_items(h).len() >= 2,
        spec_ser_inner_items(h)[0] == '"',
{
}

proof fn lemma_ser_outer_items_first(h: Seq<Seq<Seq<char>>>)
    requires
        h.len() > 0,
    ensures
        spec_ser_outer_items(h).len() >= 2,
        spec_ser_outer_items(h)[0] == '[',
{
}

proof fn lemma_parse_plain_body(s: Seq<char>, i: int, cs: Seq<char>)
    requires
        0 <= i,
        i + cs.len() + 1 <= s.len(),
        plain_string(cs),
        forall|k: int| 0 <= k < cs.len() ==> s[i + k] == #[trigger] cs[k],
        s[i + cs.len()] == '"',
    ensures
        spec_parse_string_body(s, i) == Some((cs, i + cs.len() + 1)),
    decreases cs.len(),
{
    if cs.len() == 0 {
        assert(s[i] == '"');
        assert(cs =~= Seq::<char>::empty());
    } else {
        let rest = cs.drop_first();
        assert(s[i] == cs[0]);
        assert(plain_json_char(cs[0]));
        assert forall|k: int| 0 <= k < rest.len() implies s[(i + 1) + k] == #[trigger] rest[k] by {
            assert(s[i + (k + 1)] == cs[k + 1]);
        }
        assert forall|k: int| 0 <= k < rest.len() implies plain_json_char(#[trigger] rest[k]) by {
            assert(plain_json_char(cs[k + 1]));
        }
        assert(s[(i + 1) + rest.len()] == '"');
        lemma_parse_plain_body(s, i + 1, rest);
        assert(seq![cs[0]] + rest =~= cs);
    }
}

proof fn lemma_parse_ser_inner_items(s: Seq<char>, i: int, g: Seq<Seq<char>>)
    requires
        0 <= i,
        g.len() > 0,
        plain_inner(g),
        i + spec_ser_inner_items(g).len() < s.len(),
        forall|k: int|
            0 <= k < spec_ser_inner_items(g).len() ==> s[i + k] == #[trigger] spec_ser_inner_items(
                g,
            )[k],
        s[i + spec_ser_inner_items(g).len()] == ']',
    ensures
        spec_parse_inner_items(s, i) == Some((g, i + spec_ser_inner_items(g).len() + 1)),
    decreases g.len(),
{
    let ser = spec_ser_inner_items(g);
    let w = spec_ser_string(g[0]);
    let head = g[0];
    // the first string occupies s[i .. i + w.len()]
    assert(w.len() == head.len() + 2);
    assert forall|k: int| 0 <= k < w.len() implies s[i + k] == #[trigger] w[k] by {
        assert(ser[k] == w[k]);
        assert(s[i + k] == ser[k]);
    }
    assert(s[i] == w[0]);
    assert(w[0] == '"');
    assert forall|k: int| 0 <= k < head.len() implies s[(i + 1) + k] == #[trigger] head[k] by {
        assert(s[i + (k + 1)] == w[k + 1]);
        assert(w[k + 1] == head[k]);
    }
    assert(s[(i + 1) + head.len()] == w[head.len() as int + 1]);
    assert(w[head.len() as int + 1] == '"');
    assert(plain_string(head));
    lemma_parse_plain_body(s, i + 1, head);
    let j = i + head.len() + 2;
    assert(spec_parse_string_at(s, i) == Some((head, j)));
    if g.len() == 1 {
        assert(s[j] == ']');
        assert(spec_skip_ws(s, j) == j);
        assert(spec_parse_inner_items(s, i) == Some((seq![head], j + 1)));
        assert(seq![head] =~= g);
    } else {
        let rest = g.drop_first();
        let rest_ser = spec_ser_inner_items(rest);
        assert(ser == w + seq![','] + rest_ser);
        assert(s[i + w.len()] == ser[w.len() as int]);
        assert(ser[w.len() as int] == ',');
        assert(s[j] == ',');
        assert(spec_skip_ws(s, j) == j);
        let m = j + 1;
        lemma_ser_inner_items_first(rest);
        assert(s[i + (w.len() + 1)] == ser[w.len() as int + 1]);
        assert(ser[w.len() as int + 1] == rest_ser[0]);
        assert(s[m] == '"');
        assert(!is_json_ws('"'));
        assert(spec_skip_ws(s, m) == m);
        assert forall|k: int| 0 <= k < rest_ser.len() implies s[m + k] == #[trigger] rest_ser[k] by {
            assert(s[i + (w.len() + 1 + k)] == ser[w.len() as int + 1 + k]);
            assert(ser[w.len() as int + 1 + k] == rest_ser[k]);
        }
        assert forall|a: int| 0 <= a < rest.len() implies plain_string(#[trigger] rest[a]) by {
            assert(plain_string(g[a + 1]));
        }
        assert(ser.len() == w.len() + 1 + rest_ser.len());
        assert(s[m + rest_ser.len()] == ']');
        lemma_parse_ser_inner_items(s, m, rest);
        assert(spec_parse_inner_items(s, m) == Some((rest, m + rest_ser.len() + 1)));
        assert(spec_parse_inner_items(s, i) == Some((seq![head] + rest, i + ser.len() + 1)));
        assert(seq![head] + rest =~= g);
    }
}

proof fn lemma_parse_ser_inner(s: Seq<char>, i: int, g: Seq<Seq<char>>)
    requires
        0 <= i,
        plain_inner(g),
        i + spec_ser_inner(g).len() <= s.len(),
        forall|k: int|
            0 <= k < spec_ser_inner(g).len() ==> s[i + k] == #[trigger] spec_ser_inner(g)[k],
    ensures
        spec_parse_inner(s, i) == Some((g, i + spec_ser_inner(g).len())),
{
    let ser = spec_ser_inner(g);
    let items = spec_ser_inner_items(g);
    assert(ser.len() == items.len() + 2);
    assert(s[i + 0] == ser[0]);
    assert(ser[0] == '[');
    if g.len() == 0 {
        assert(items =~= Seq::<char>::empty());
        assert(s[i + 1] == ser[1]);
        assert(ser[1] == ']');
        assert(spec_skip_ws(s, i + 1) == i + 1);
        assert(spec_parse_inner(s, i) == Some((Seq::<Seq<char>>::empty(), i + 2)));
        assert(g =~= Seq::<Seq<char>>::empty());
    } else {
        lemma_ser_inner_items_first(g);
        assert(s[i + 1] == ser[1]);
        assert(ser[1] == items[0]);
        assert(s[i + 1] == '"');
        assert(spec_skip_ws(s, i + 1) == i + 1);
        assert forall|k: int| 0 <= k < items.len() implies s[(i + 1) + k] == #[trigger] items[k] by {
            assert(s[i + (k + 1)] == ser[k + 1]);
            assert(ser[k + 1] == items[k]);
        }
        assert(s[(i + 1) + items.len()] == ser[items.len() as int + 1]);
        assert(ser[items.len() as int + 1] == ']');
        lemma_parse_ser_inner_items(s, i + 1, g);
    }
}

proof fn lemma_parse_ser_outer_items(s: Seq<char>, i: int, gs: Seq<Seq<Seq<char>>>)
    requires
        0 <= i,
        gs.len() > 0,
        plain_groups(gs),
        i + spec_ser_outer_items(gs).len() < s.len(),
        forall|k: int|
            0 <= k < spec_ser_outer_items(gs).len() ==> s[i + k]
                == #[trigger] spec_ser_outer_items(gs)[k],
        s[i + spec_ser_outer_items(gs).len()] == ']',
    ensures
        spec_parse_outer_items(s, i) == Some((gs, i + spec_ser_outer_items(gs).len() + 1)),
    decreases gs.len(),
{
    let ser = spec_ser_outer_items(gs);
    let w = spec_ser_inner(gs[0]);
    let head = gs[0];
    assert forall|k: int| 0 <= k < w.len() implies s[i + k] == #[trigger] w[k] by {
        assert(ser[k] == w[k]);
        assert(s[i + k] == ser[k]);
    }
    assert(plain_inner(head));
    lemma_parse_ser_inner(s, i, head);
    let j = i + w.len();
    assert(spec_parse_inner(s, i) == Some((head, j)));
    if gs.len() == 1 {
        assert(s[j] == ']');
        assert(spec_skip_ws(s, j) == j);
        assert(spec_parse_outer_items(s, i) == Some((seq![head], j + 1)));
        assert(seq![head] =~= gs);
    } else {
        let rest = gs.drop_first();
        let rest_ser = spec_ser_outer_items(rest);
        assert(ser == w + seq![','] + rest_ser);
        assert(s[i + w.len()] == ser[w.len() as int]);
        assert(ser[w.len() as int] == ',');
        assert(spec_skip_ws(s, j) == j);
        let m = j + 1;
        lemma_ser_outer_items_first(rest);
        assert(s[i + (w.len() + 1)] == ser[w.len() as int + 1]);
        assert(ser[w.len() as int + 1] == rest_ser[0]);
        assert(s[m] == '[');
        assert(spec_skip_ws(s, m) == m);
        assert forall|k: int| 0 <= k < rest_ser.len() implies s[m + k] == #[trigger] rest_ser[k] by {
            assert(s[i + (w.len() + 1 + k)] == ser[w.len() as int + 1 + k]);
            assert(ser[w.len() as int + 1 + k] == rest_ser[k]);
        }
        assert forall|a: int| 0 <= a < rest.len() implies plain_inner(#[trigger] rest[a]) by {
            assert(plain_inner(gs[a + 1]));
        }
        assert(ser.len() == w.len() + 1 + rest_ser.len());
        assert(s[m + rest_ser.len()] == ']');
        lemma_parse_ser_outer_items(s, m, rest);
        assert(spec_parse_outer_items(s, i) == Some((seq![head] + rest, i + ser.len() + 1)));
        assert(seq![head] + rest =~= gs);
    }
}

proof fn lemma_parse_ser_outer(s: Seq<char>, i: int, gs: Seq<Seq<Seq<char>>>)
    requires
        0 <= i,
        plain_groups(gs),
        i + spec_ser_groups(gs).len() <= s.len(),
        forall|k: int|
            0 <= k < spec_ser_groups(gs).len() ==> s[i + k] == #[trigger] spec_ser_groups(gs)[k],
    ensures
        spec_parse_outer(s, i) == Some((gs, i + spec_ser_groups(gs).len())),
{
    let ser = spec_ser_groups(gs);
    let items = spec_ser_outer_items(gs);
    assert(ser.len() == items.len() + 2);
    assert(s[i + 0] == ser[0]);
    assert(ser[0] == '[');
    if gs.len() == 0 {
        assert(items =~= Seq::<char>::empty());
        assert(s[i + 1] == ser[1]);
        assert(ser[1] == ']');
        assert(spec_skip_ws(s, i + 1) == i + 1);
        assert(spec_parse_outer(s, i) == Some((Seq::<Seq<Seq<char>>>::empty(), i + 2)));
        assert(gs =~= Seq::<Seq<Seq<char>>>::empty());
    } else {
        lemma_ser_outer_items_first(gs);
        assert(s[i + 1] == ser[1]);
        assert(ser[1] == items[0]);
        assert(s[i + 1] == '[');
        assert(spec_skip_ws(s, i + 1) == i + 1);
        assert forall|k: int| 0 <= k < items.len() implies s[(i + 1) + k] == #[trigger] items[k] by {
            assert(s[i + (k + 1)] == ser[k + 1]);
            assert(ser[k + 1] == items[k]);
        }
        assert(s[(i + 1) + items.len()] == ser[items.len() as int + 1]);
        assert(ser[items.len() as int + 1] == ']');
        lemma_parse_ser_outer_items(s, i + 1, gs);
    }
}

/// Round trip: the canonical serialization of any grouping whose strings hold
/// only characters JSON can carry unescaped parses back to exactly that
/// grouping — every group, and every file path within it, verbatim and in
/// order.
pub proof fn lemma_groups_round_trip(gs: Seq<Seq<Seq<char>>>)
    requires
        plain_groups(gs),
    ensures
        spec_parse_groups(spec_ser_groups(gs)) == Some(gs),
{
    let s = spec_ser_groups(gs);
    assert(s[0] == '[');
    assert(spec_skip_ws(s, 0) == 0);
    assert forall|k: int| 0 <= k < s.len() implies s[0 + k] == #[trigger] s[k] by {}
    lemma_parse_ser_outer(s, 0, gs);
    assert(spec_parse_outer(s, 0) == Some((gs, s.len() as int)));
    assert(spec_skip_ws(s, s.len() as int) == s.len());
}

} // verus!
