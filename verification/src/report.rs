//! The textual assembly of the history and log reports.

use vstd::prelude::*;
use vstd::string::StrSliceExecFns;
use vstd::string::StringExecFns;
use crate::strutil::push_char;

verus! {

/// The text with four spaces of indentation inserted after every newline,
/// so continuation lines sit under a heading.
pub open spec fn spec_indented(s: Seq<char>) -> Seq<char>
    decreases s.len(),
{
    if s.len() == 0 {
        Seq::empty()
    } else {
        let init = spec_indented(s.drop_last());
        if s.last() == '\n' {
            init + seq!['\n', ' ', ' ', ' ', ' ']
        } else {
            init.push(s.last())
        }
    }
}

/// Indent every continuation line of `s` by four spaces.
pub fn indent_continuations(s: &str) -> (r: String)
    ensures
        r@ == spec_indented(s@),
{
    let n = s.unicode_len();
    let mut out = String::new();
    let mut i: usize = 0;
    while i < n
        invariant
            0 <= i <= n,
            n == s@.len(),
            out@ == spec_indented(s@.take(i as int)),
        decreases n - i,
    {
        proof {
            assert(s@.take(i + 1 as int).drop_last() =~= s@.take(i as int));
            reveal_strlit("\n    ");
            assert("\n    "@ =~= seq!['\n', ' ', ' ', ' ', ' ']);
        }
        let c = s.get_char(i);
        if c == '\n' {
            out.append("\n    ");
        } else {
            push_char(&mut out, c);
        }
        i = i + 1;
    }
    proof {
        assert(s@.take(s@.len() as int) =~= s@);
    }
    out
}

/// One entry of the history summary: the short hash, the commit's own
/// summary line, and the generated summary.
pub fn history_entry(short_hash: &str, summary_line: &str, ai_summary: &str) -> (r: String)
    ensures
        r@ == "Commit "@ + short_hash@ + " - "@ + summary_line@ + "\n"@ + ai_summary@ + "\n"@,
{
    let mut out = String::from_str("Commit ");
    out.append(short_hash);
    out.append(" - ");
    out.append(summary_line);
    out.append("\n");
    out.append(ai_summary);
    out.append("\n");
    out
}

/// The separator written between history entries.
pub fn history_separator() -> (r: &'static str)
    ensures
        r@ == "\n---\n\n"@,
{
    "\n---\n\n"
}

/// One entry of the colored log: header with hash, author and date, the
/// generated summary, a rule, and the commit's own message when it has one.
/// Multi-line texts are indented under their headings.
pub open spec fn spec_log_entry(
    hash: Seq<char>,
    author: Seq<char>,
    date: Seq<char>,
    ai_summary: Seq<char>,
    original_message: Option<Seq<char>>,
) -> Seq<char> {
    "\n\u{1b}[33mcommit "@ + hash + "\u{1b}[0m\nAuthor: "@ + author + "\nDate:   "@ + date
        + "\n\n\u{1b}[36mAI Summary:\u{1b}[0m\n"@ + spec_indented(ai_summary)
        + "\n\n\u{1b}[90m----------------------------------------\u{1b}[0m\n"@ + (match original_message {
        Some(m) => "\u{1b}[32mOriginal Message:\u{1b}[0m\n"@ + spec_indented(m) + "\n"@,
        None => Seq::empty(),
    }) + "\n"@
}

pub fn log_entry(
    hash: &str,
    author: &str,
    date: &str,
    ai_summary: &str,
    original_message: Option<&str>,
) -> (r: String)
    ensures
        r@ == spec_log_entry(hash@, author@, date@, ai_summary@, match original_message {
            Some(m) => Some(m@),
            None => None,
        }),
{
    let mut out = String::from_str("\n\u{1b}[33mcommit ");
    out.append(hash);
    out.append("\u{1b}[0m\nAuthor: ");
    out.append(author);
    out.append("\nDate:   ");
    out.append(date);
    out.append("\n\n\u{1b}[36mAI Summary:\u{1b}[0m\n");
    let indented_summary = indent_continuations(ai_summary);
    out.append(indented_summary.as_str());
    out.append("\n\n\u{1b}[90m----------------------------------------\u{1b}[0m\n");
    match original_message {
        Some(m) => {
            out.append("\u{1b}[32mOriginal Message:\u{1b}[0m\n");
            let indented_message = indent_continuations(m);
            out.append(indented_message.as_str());
            out.append("\n");
        },
        None => {},
    }
    out.append("\n");
    out
}

} // verus!
