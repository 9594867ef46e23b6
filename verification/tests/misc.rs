use git_ai::pr::PullRequest;
use git_ai::report::history_entry;
use git_ai::report::history_separator;
use git_ai::report::indent_continuations;
use git_ai::report::log_entry;
use git_ai::status::StatusEntry;
use git_ai::status::get_change_groups;
use git_ai::strutil::first_line;
use git_ai::strutil::is_prefix_of;
use git_ai::summary::DiffStats;
use git_ai::summary::format_dec;
use git_ai::summary::summarize_diff;
use git_ai::ui::App;

#[test]
fn stats_summary_exact_text() {
    let stats = DiffStats { files_changed: 3, insertions: 10, deletions: 2 };
    assert_eq!(
        summarize_diff(&stats),
        "Changes: 3 files changed, 10 insertions(+), 2 deletions(-)"
    );
}

#[test]
fn decimal_formatting() {
    assert_eq!(format_dec(0), "0");
    assert_eq!(format_dec(7), "7");
    assert_eq!(format_dec(10), "10");
    assert_eq!(format_dec(1234567890), "1234567890");
    assert_eq!(format_dec(u64::MAX), "18446744073709551615");
}

#[test]
fn pull_request_builders_set_one_field_each() {
    let pr = PullRequest::new();
    assert!(pr.title.is_none() && pr.body.is_none() && pr.base.is_none());
    let pr = pr
        .with_title("Add parser".to_string())
        .with_body("Details".to_string())
        .with_base("develop".to_string());
    assert_eq!(pr.title.as_deref(), Some("Add parser"));
    assert_eq!(pr.body.as_deref(), Some("Details"));
    assert_eq!(pr.base.as_deref(), Some("develop"));
    assert_eq!(pr.base_branch(), "develop");
}

#[test]
fn base_branch_defaults_to_main() {
    assert_eq!(PullRequest::new().base_branch(), "main");
}

#[test]
fn first_line_of_a_message() {
    assert_eq!(first_line("Add parser\n\nDetails follow."), Some("Add parser".to_string()));
    assert_eq!(first_line("single line"), Some("single line".to_string()));
    assert_eq!(first_line("crlf line\r\nrest"), Some("crlf line".to_string()));
    assert_eq!(first_line("\nstarts empty"), Some("".to_string()));
    assert_eq!(first_line(""), None);
}

#[test]
fn prefix_checks() {
    assert!(is_prefix_of("", "anything"));
    assert!(is_prefix_of("abc1", "abc123def"));
    assert!(!is_prefix_of("abd", "abc123def"));
    assert!(!is_prefix_of("longer", "long"));
    assert!(is_prefix_of("hél", "héllo"));
}


fn entry(path: &str, index: (bool, bool, bool), wt: (bool, bool, bool)) -> StatusEntry {
    StatusEntry {
        path: path.to_string(),
        index_new: index.0,
        index_modified: index.1,
        index_deleted: index.2,
        wt_new: wt.0,
        wt_modified: wt.1,
        wt_deleted: wt.2,
    }
}

#[test]
fn change_groups_partition_by_flags() {
    let statuses = vec![
        entry("staged_new.rs", (true, false, false), (false, false, false)),
        entry("both.rs", (false, true, false), (false, true, false)),
        entry("unstaged_del.rs", (false, false, false), (false, false, true)),
        entry("clean.rs", (false, false, false), (false, false, false)),
    ];
    let (staged, unstaged) = get_change_groups(&statuses);
    assert_eq!(staged, vec!["staged_new.rs".to_string(), "both.rs".to_string()]);
    assert_eq!(unstaged, vec!["both.rs".to_string(), "unstaged_del.rs".to_string()]);
}

#[test]
fn change_groups_of_nothing() {
    let (staged, unstaged) = get_change_groups(&vec![]);
    assert!(staged.is_empty());
    assert!(unstaged.is_empty());
}

#[test]
fn app_holds_its_text_and_updates_in_place() {
    let mut app = App::new("Title".to_string(), "Body".to_string());
    assert_eq!(app.title, "Title");
    assert_eq!(app.content, "Body");
    assert!(app.update().is_ok());
    assert_eq!(app.title, "Title");
    assert_eq!(app.content, "Body");
}

#[test]
fn continuation_lines_are_indented() {
    assert_eq!(indent_continuations("one\ntwo\nthree"), "one\n    two\n    three");
    assert_eq!(indent_continuations(""), "");
    assert_eq!(indent_continuations("flat"), "flat");
}

#[test]
fn history_entry_exact_text() {
    assert_eq!(
        history_entry("ab12cd3", "Fix the build", "A summary."),
        "Commit ab12cd3 - Fix the build\nA summary.\n"
    );
    assert_eq!(history_separator(), "\n---\n\n");
}

#[test]
fn log_entry_exact_text() {
    let entry = log_entry(
        "deadbeef",
        "A Dev <dev@example.com>",
        "2024-01-02 03:04:05",
        "Add parser\nwith details",
        Some("original\nmessage"),
    );
    assert_eq!(
        entry,
        "\n\u{1b}[33mcommit deadbeef\u{1b}[0m\nAuthor: A Dev <dev@example.com>\nDate:   2024-01-02 03:04:05\n\n\u{1b}[36mAI Summary:\u{1b}[0m\nAdd parser\n    with details\n\n\u{1b}[90m----------------------------------------\u{1b}[0m\n\u{1b}[32mOriginal Message:\u{1b}[0m\noriginal\n    message\n\n"
    );
}

#[test]
fn log_entry_without_original_message() {
    let entry = log_entry("deadbeef", "A Dev", "2024-01-02 03:04:05", "Summary", None);
    assert!(entry.ends_with("----------------------------------------\u{1b}[0m\n\n"));
    assert!(!entry.contains("Original Message"));
}
