//! Small executable helpers over strings and characters.

use vstd::prelude::*;
use vstd::string::StrSliceExecFns;

verus! {

/// Relies on `String::push`: it appends exactly the one character to the string.
#[verifier::external_body]
pub fn push_char(s: &mut String, c: char)
    ensures
        final(s)@ == old(s)@ + seq![c],
{
    s.push(c);
}

/// Index of the first `'\n'` at or after `i`, or the length of `s` when there is none.
pub open spec fn spec_newline_pos(s: Seq<char>, i: int) -> int
    recommends
        0 <= i <= s.len(),
    decreases s.len() - i when 0 <= i <= s.len()
{
    if i < s.len() && s[i] != '\n' {
        spec_newline_pos(s, i + 1)
    } else {
        i
    }
}

/// The first line of a string, as `str::lines` yields it: everything before the
/// first `'\n'`, with one trailing `'\r'` removed if present.
pub open spec fn spec_first_line(s: Seq<char>) -> Seq<char> {
    let p = spec_newline_pos(s, 0);
    let head = s.subrange(0, p);
    if head.len() > 0 && head.last() == '\r' {
        head.drop_last()
    } else {
        head
    }
}

pub proof fn lemma_newline_pos_bounds(s: Seq<char>, i: int)
    requires
        0 <= i <= s.len(),
    ensures
        i <= spec_newline_pos(s, i) <= s.len(),
    decreases s.len() - i,
{
    if i < s.len() && s[i] != '\n' {
        lemma_newline_pos_bounds(s, i + 1);
    }
}

/// The first line of `msg`, or `None` when `msg` is empty (matching what
/// `msg.lines().next()` returns).
pub fn first_line(msg: &str) -> (r: Option<String>)
    ensures
        match r {
            Some(t) => msg@.len() > 0 && t@ == spec_first_line(msg@),
            None => msg@.len() == 0,
        },
{
    let n = msg.unicode_len();
    if n == 0 {
        return None;
    }
    proof {
        lemma_newline_pos_bounds(msg@, 0);
    }
    let mut i: usize = 0;
    while i < n && msg.get_char(i) != '\n'
        invariant
            0 <= i <= n,
            n == msg@.len(),
            spec_newline_pos(msg@, 0) == spec_newline_pos(msg@, i as int),
        decreases n - i,
    {
        i = i + 1;
    }
    assert(spec_newline_pos(msg@, 0) == i as int);
    let head_end = if i > 0 && msg.get_char(i - 1) == '\r' {
        i - 1
    } else {
        i
    };
    let head = msg.substring_char(0, head_end);
    assert(head@ == spec_first_line(msg@));
    Some(head.to_owned())
}

/// Whether `prefix` is a prefix of `s`, compared character by character.
pub fn is_prefix_of(prefix: &str, s: &str) -> (r: bool)
    ensures
        r == (prefix@.len() <= s@.len() && s@.subrange(0, prefix@.len() as int)
            == prefix@),
{
    let pn = prefix.unicode_len();
    let sn = s.unicode_len();
    if pn > sn {
        return false;
    }
    let mut i: usize = 0;
    while i < pn
        invariant
            0 <= i <= pn <= sn,
            pn == prefix@.len(),
            sn == s@.len(),
            forall|k: int| 0 <= k < i ==> s@[k] == prefix@[k],
        decreases pn - i,
    {
        if prefix.get_char(i) != s.get_char(i) {
            assert(s@.subrange(0, pn as int)[i as int] != prefix@[i as int]);
            return false;
        }
        i = i + 1;
    }
    assert(s@.subrange(0, pn as int) =~= prefix@);
    true
}

} // verus!
