//! The one-line statistics summary of a diff, with verified decimal
//! formatting of the counts.

use vstd::prelude::*;
use vstd::string::StringExecFns;
use crate::strutil::push_char;

verus! {

/// The decimal digit character for `d`.
pub open spec fn spec_digit(d: int) -> char {
    if d == 0 {
        '0'
    } else if d == 1 {
        '1'
    } else if d == 2 {
        '2'
    } else if d == 3 {
        '3'
    } else if d == 4 {
        '4'
    } else if d == 5 {
        '5'
    } else if d == 6 {
        '6'
    } else if d == 7 {
        '7'
    } else if d == 8 {
        '8'
    } else {
        '9'
    }
}

/// The decimal digits of a non-negative number, most significant first, with
/// no leading zero except for the number zero itself.
pub open spec fn spec_dec(n: int) -> Seq<char>
    recommends
        n >= 0,
    decreases n,
{
    if n < 10 {
        seq![spec_digit(n)]
    } else {
        spec_dec(n / 10) + seq![spec_digit(n % 10)]
    }
}

fn digit_char(d: u64) -> (c: char)
    requires
        d < 10,
    ensures
        c == spec_digit(d as int),
{
    match d {
        0 => '0',
        1 => '1',
        2 => '2',
        3 => '3',
        4 => '4',
        5 => '5',
        6 => '6',
        7 => '7',
        8 => '8',
        _ => '9',
    }
}

fn push_dec(n: u64, out: &mut String)
    ensures
        final(out)@ == old(out)@ + spec_dec(n as int),
    decreases n,
{
    if n >= 10 {
        push_dec(n / 10, out);
        proof {
            assert((old(out)@ + spec_dec(n as int / 10)) + seq![spec_digit(n as int % 10)]
                =~= old(out)@ + (spec_dec(n as int / 10) + seq![spec_digit(n as int % 10)]));
        }
        push_char(out, digit_char(n % 10));
    } else {
        push_char(out, digit_char(n));
    }
}

/// A non-negative number written in decimal.
pub fn format_dec(n: u64) -> (r: String)
    ensures
        r@ == spec_dec(n as int),
{
    let mut s = String::new();
    push_dec(n, &mut s);
    proof {
        assert(Seq::<char>::empty() + spec_dec(n as int) =~= spec_dec(n as int));
    }
    s
}

/// The counts a diff reduces to: how many files changed, and how many lines
/// were inserted and deleted.
#[derive(Debug, Clone, Copy)]
pub struct DiffStats {
    pub files_changed: u64,
    pub insertions: u64,
    pub deletions: u64,
}

/// The one-line textual summary of the counts.
pub fn summarize_diff(stats: &DiffStats) -> (r: String)
    ensures
        r@ == "Changes: "@ + spec_dec(stats.files_changed as int) + " files changed, "@
            + spec_dec(stats.insertions as int) + " insertions(+), "@ + spec_dec(
            stats.deletions as int,
        ) + " deletions(-)"@,
{
    let mut s = String::from_str("Changes: ");
    push_dec(stats.files_changed, &mut s);
    s.append(" files changed, ");
    push_dec(stats.insertions, &mut s);
    s.append(" insertions(+), ");
    push_dec(stats.deletions, &mut s);
    s.append(" deletions(-)");
    s
}

} // verus!
