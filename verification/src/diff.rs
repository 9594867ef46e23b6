//! The diff model and its flat text representations.
//!
//! A diff is an ordered sequence of annotated lines; formatting concatenates
//! them in traversal order, with no reordering and no deduplication.

use vstd::prelude::*;
use vstd::string::StringExecFns;

verus! {

/// The origin of one diff line.
#[derive(Debug, Clone, Copy, PartialEq, Eq, Structural)]
pub enum LineKind {
    Addition,
    Deletion,
    Context,
}

/// One line of a diff: its origin, the path of the file it belongs to when
/// the diff knows it, and its text without the trailing newline.
#[derive(Debug, Clone)]
pub struct DiffLine {
    pub kind: LineKind,
    pub path: Option<String>,
    pub text: String,
}

/// A diff flattened to an ordered sequence of annotated lines.
#[derive(Debug, Clone)]
pub struct DiffText {
    pub lines: Vec<DiffLine>,
}

/// The one-character prefix of a line in plain mode.
pub open spec fn spec_kind_mark(k: LineKind) -> Seq<char> {
    match k {
        LineKind::Addition => seq!['+'],
        LineKind::Deletion => seq!['-'],
        LineKind::Context => seq![' '],
    }
}

/// One line in plain mode: mark, text, newline.
pub open spec fn spec_line_plain(l: DiffLine) -> Seq<char> {
    spec_kind_mark(l.kind) + l.text@ + seq!['\n']
}

/// The path annotation appended to a line: ` (path)` and the newline.
pub open spec fn spec_path_suffix(p: Seq<char>) -> Seq<char> {
    seq![' ', '('] + p + seq![')', '\n']
}

/// One line in path-annotated mode. Only additions and deletions whose file
/// path is known appear; everything else formats to nothing.
pub open spec fn spec_line_annotated(l: DiffLine) -> Seq<char> {
    match (l.kind, l.path) {
        (LineKind::Addition, Some(p)) => seq!['+'] + l.text@ + spec_path_suffix(p@),
        (LineKind::Deletion, Some(p)) => seq!['-'] + l.text@ + spec_path_suffix(p@),
        _ => Seq::empty(),
    }
}

/// One line in path-annotated mode with a leading tag, as the grouping
/// prompt wants it: `tag +text (path)` and the newline.
pub open spec fn spec_line_prefixed(prefix: Seq<char>, l: DiffLine) -> Seq<char> {
    match (l.kind, l.path) {
        (LineKind::Addition, Some(p)) => prefix + seq![' ', '+'] + l.text@ + spec_path_suffix(p@),
        (LineKind::Deletion, Some(p)) => prefix + seq![' ', '-'] + l.text@ + spec_path_suffix(p@),
        _ => Seq::empty(),
    }
}

pub open spec fn spec_format_plain(lines: Seq<DiffLine>) -> Seq<char>
    decreases lines.len(),
{
    if lines.len() == 0 {
        Seq::empty()
    } else {
        spec_format_plain(lines.drop_last()) + spec_line_plain(lines.last())
    }
}

pub open spec fn spec_format_annotated(lines: Seq<DiffLine>) -> Seq<char>
    decreases lines.len(),
{
    if lines.len() == 0 {
        Seq::empty()
    } else {
        spec_format_annotated(lines.drop_last()) + spec_line_annotated(lines.last())
    }
}

pub open spec fn spec_format_prefixed(prefix: Seq<char>, lines: Seq<DiffLine>) -> Seq<char>
    decreases lines.len(),
{
    if lines.len() == 0 {
        Seq::empty()
    } else {
        spec_format_prefixed(prefix, lines.drop_last()) + spec_line_prefixed(
            prefix,
            lines.last(),
        )
    }
}

impl DiffText {
    /// An empty diff.
    pub fn new() -> (r: Self)
        ensures
            r.lines@.len() == 0,
    {
        DiffText { lines: Vec::new() }
    }

    /// Append one line at the end.
    pub fn push_line(&mut self, l: DiffLine)
        ensures
            final(self).lines@ == old(self).lines@.push(l),
    {
        self.lines.push(l);
    }

    /// Plain mode, used for summarization prompts: every line, each prefixed
    /// `+`, `-` or a space by its origin. An empty diff formats to the empty
    /// string.
    pub fn format_plain(&self) -> (r: String)
        ensures
            r@ == spec_format_plain(self.lines@),
            self.lines@.len() == 0 ==> r@ == Seq::<char>::empty(),
    {
        let mut out = String::new();
        let mut i: usize = 0;
        while i < self.lines.len()
            invariant
                0 <= i <= self.lines@.len(),
                out@ == spec_format_plain(self.lines@.take(i as int)),
            decreases self.lines@.len() - i,
        {
            proof {
                assert(self.lines@.take(i + 1 as int).drop_last() =~= self.lines@.take(i as int));
                reveal_strlit("+");
                reveal_strlit("-");
                reveal_strlit(" ");
                reveal_strlit("\n");
                assert("+"@ =~= seq!['+']);
                assert("-"@ =~= seq!['-']);
                assert(" "@ =~= seq![' ']);
                assert("\n"@ =~= seq!['\n']);
            }
            let l = &self.lines[i];
            match l.kind {
                LineKind::Addition => out.append("+"),
                LineKind::Deletion => out.append("-"),
                LineKind::Context => out.append(" "),
            }
            out.append(l.text.as_str());
            out.append("\n");
            i = i + 1;
        }
        proof {
            assert(self.lines@.take(self.lines@.len() as int) =~= self.lines@);
        }
        out
    }

    /// Path-annotated mode, used for commit-message and grouping prompts:
    /// only additions and deletions with a known file path, each written
    /// `+text (path)` or `-text (path)`. A diff with no such line formats to
    /// the empty string.
    pub fn format_annotated(&self) -> (r: String)
        ensures
            r@ == spec_format_annotated(self.lines@),
            self.lines@.len() == 0 ==> r@ == Seq::<char>::empty(),
    {
        let mut out = String::new();
        let mut i: usize = 0;
        while i < self.lines.len()
            invariant
                0 <= i <= self.lines@.len(),
                out@ == spec_format_annotated(self.lines@.take(i as int)),
            decreases self.lines@.len() - i,
        {
            proof {
                assert(self.lines@.take(i + 1 as int).drop_last() =~= self.lines@.take(i as int));
                reveal_strlit("+");
                reveal_strlit("-");
                reveal_strlit(" (");
                reveal_strlit(")\n");
                assert("+"@ =~= seq!['+']);
                assert("-"@ =~= seq!['-']);
                assert(" ("@ =~= seq![' ', '(']);
                assert(")\n"@ =~= seq![')', '\n']);
            }
            let l = &self.lines[i];
            match (&l.kind, &l.path) {
                (LineKind::Addition, Some(p)) => {
                    out.append("+");
                    out.append(l.text.as_str());
                    out.append(" (");
                    out.append(p.as_str());
                    out.append(")\n");
                },
                (LineKind::Deletion, Some(p)) => {
                    out.append("-");
                    out.append(l.text.as_str());
                    out.append(" (");
                    out.append(p.as_str());
                    out.append(")\n");
                },
                _ => {},
            }
            i = i + 1;
        }
        proof {
            assert(self.lines@.take(self.lines@.len() as int) =~= self.lines@);
        }
        out
    }

    /// Path-annotated mode with a leading tag on every line, used to mark
    /// staged against unstaged changes in the grouping prompt.
    pub fn format_prefixed(&self, prefix: &str) -> (r: String)
        ensures
            r@ == spec_format_prefixed(prefix@, self.lines@),
            self.lines@.len() == 0 ==> r@ == Seq::<char>::empty(),
    {
        let mut out = String::new();
        let mut i: usize = 0;
        while i < self.lines.len()
            invariant
                0 <= i <= self.lines@.len(),
                out@ == spec_format_prefixed(prefix@, self.lines@.take(i as int)),
            decreases self.lines@.len() - i,
        {
            proof {
                assert(self.lines@.take(i + 1 as int).drop_last() =~= self.lines@.take(i as int));
                reveal_strlit(" +");
                reveal_strlit(" -");
                reveal_strlit(" (");
                reveal_strlit(")\n");
                assert(" +"@ =~= seq![' ', '+']);
                assert(" -"@ =~= seq![' ', '-']);
                assert(" ("@ =~= seq![' ', '(']);
                assert(")\n"@ =~= seq![')', '\n']);
            }
            let l = &self.lines[i];
            match (&l.kind, &l.path) {
                (LineKind::Addition, Some(p)) => {
                    out.append(prefix);
                    out.append(" +");
                    out.append(l.text.as_str());
                    out.append(" (");
                    out.append(p.as_str());
                    out.append(")\n");
                },
                (LineKind::Deletion, Some(p)) => {
                    out.append(prefix);
                    out.append(" -");
                    out.append(l.text.as_str());
                    out.append(" (");
                    out.append(p.as_str());
                    out.append(")\n");
                },
                _ => {},
            }
            i = i + 1;
        }
        proof {
            assert(self.lines@.take(self.lines@.len() as int) =~= self.lines@);
        }
        out
    }
}

/// An empty diff formats to the empty string in every mode, whatever the
/// prefix.
pub proof fn lemma_empty_diff_formats_empty(lines: Seq<DiffLine>, prefix: Seq<char>)
    requires
        lines.len() == 0,
    ensures
        spec_format_plain(lines) == Seq::<char>::empty(),
        spec_format_annotated(lines) == Seq::<char>::empty(),
        spec_format_prefixed(prefix, lines) == Seq::<char>::empty(),
{
}

} // verus!
