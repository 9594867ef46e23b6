use git_ai::diff::DiffLine;
use git_ai::diff::DiffText;
use git_ai::diff::LineKind;

fn line(kind: LineKind, path: Option<&str>, text: &str) -> DiffLine {
    DiffLine { kind, path: path.map(|p| p.to_string()), text: text.to_string() }
}

#[test]
fn empty_diff_formats_empty_in_every_mode() {
    let d = DiffText::new();
    assert_eq!(d.format_plain(), "");
    assert_eq!(d.format_annotated(), "");
    assert_eq!(d.format_prefixed("[Staged]"), "");
}

#[test]
fn path_annotated_single_addition_exact_format() {
    let mut d = DiffText::new();
    d.push_line(line(LineKind::Addition, Some("src/x.rs"), "foo"));
    assert_eq!(d.format_annotated(), "+foo (src/x.rs)\n");
}

#[test]
fn plain_mode_marks_every_line_kind() {
    let mut d = DiffText::new();
    d.push_line(line(LineKind::Addition, Some("a.rs"), "new line"));
    d.push_line(line(LineKind::Deletion, None, "old line"));
    d.push_line(line(LineKind::Context, Some("a.rs"), "kept line"));
    assert_eq!(d.format_plain(), "+new line\n-old line\n kept line\n");
}

#[test]
fn annotated_mode_keeps_only_pathed_additions_and_deletions() {
    let mut d = DiffText::new();
    d.push_line(line(LineKind::Context, Some("a.rs"), "ctx"));
    d.push_line(line(LineKind::Addition, None, "orphan"));
    d.push_line(line(LineKind::Deletion, Some("b.rs"), "gone"));
    assert_eq!(d.format_annotated(), "-gone (b.rs)\n");
}

#[test]
fn prefixed_mode_tags_each_line() {
    let mut d = DiffText::new();
    d.push_line(line(LineKind::Addition, Some("src/x.rs"), "foo"));
    d.push_line(line(LineKind::Deletion, Some("src/y.rs"), "bar"));
    assert_eq!(
        d.format_prefixed("[Unstaged]"),
        "[Unstaged] +foo (src/x.rs)\n[Unstaged] -bar (src/y.rs)\n"
    );
}

#[test]
fn formatting_keeps_traversal_order() {
    let mut d = DiffText::new();
    d.push_line(line(LineKind::Addition, Some("z.rs"), "1"));
    d.push_line(line(LineKind::Addition, Some("a.rs"), "2"));
    d.push_line(line(LineKind::Addition, Some("z.rs"), "1"));
    assert_eq!(d.format_annotated(), "+1 (z.rs)\n+2 (a.rs)\n+1 (z.rs)\n");
}
