use git_ai::analyzer::AnalysisStep;
use git_ai::analyzer::CommitMessageStep;
use git_ai::analyzer::analyze_changes_request;
use git_ai::analyzer::analyze_changes_response;
use git_ai::analyzer::generate_commit_message_request;
use git_ai::analyzer::summarize_diff_request;
use git_ai::diff::DiffLine;
use git_ai::diff::DiffText;
use git_ai::diff::LineKind;
use git_ai::error::EngineError;

fn one_line_diff(path: &str, text: &str) -> DiffText {
    let mut d = DiffText::new();
    d.push_line(DiffLine {
        kind: LineKind::Addition,
        path: Some(path.to_string()),
        text: text.to_string(),
    });
    d
}

#[test]
fn well_formed_grouping_response_is_returned_verbatim() {
    let r = analyze_changes_response("[[\"a.rs\",\"b.rs\"],[\"z.md\"]]".to_string());
    assert_eq!(
        r,
        Ok(vec![
            vec!["a.rs".to_string(), "b.rs".to_string()],
            vec!["z.md".to_string()],
        ])
    );
}

#[test]
fn malformed_grouping_response_keeps_the_raw_text() {
    let r = analyze_changes_response("not json".to_string());
    match r {
        Err(EngineError::ResponseParseError { raw_response }) => {
            assert_eq!(raw_response, "not json");
        }
        other => panic!("expected a parse error, got {:?}", other),
    }
}

#[test]
fn staged_and_unstaged_changes_group_end_to_end() {
    let staged = one_line_diff("a.rs", "fn a() {}");
    let unstaged = one_line_diff("b.rs", "fn b() {}");
    let step = analyze_changes_request(&staged, &unstaged, None);
    let req = match step {
        AnalysisStep::Ask(req) => req,
        AnalysisStep::Done(g) => panic!("expected a provider call, got {:?}", g),
    };
    assert!(req.user.contains("[Staged] +fn a() {} (a.rs)\n"));
    assert!(req.user.contains("[Unstaged] +fn b() {} (b.rs)\n"));
    assert!(req.user.contains("custom focus: none"));
    assert!(req.system.contains("Only output the JSON array"));
    // the mock provider answers with one group holding both files
    let groups = analyze_changes_response("[[\"a.rs\",\"b.rs\"]]".to_string()).unwrap();
    assert_eq!(groups, vec![vec!["a.rs".to_string(), "b.rs".to_string()]]);
}

#[test]
fn empty_diffs_group_to_nothing_without_a_call() {
    let step = analyze_changes_request(&DiffText::new(), &DiffText::new(), Some("anything"));
    match step {
        AnalysisStep::Done(g) => assert!(g.is_empty()),
        AnalysisStep::Ask(req) => panic!("no call was owed, yet asked: {:?}", req.user),
    }
}

#[test]
fn commit_message_for_empty_diff_needs_no_call() {
    let step = generate_commit_message_request(&DiffText::new());
    match step {
        CommitMessageStep::Done(msg) => assert_eq!(msg, "No changes detected."),
        CommitMessageStep::Ask(req) => panic!("no call was owed, yet asked: {:?}", req.user),
    }
}

#[test]
fn commit_message_request_embeds_annotated_changes() {
    let diff = one_line_diff("src/x.rs", "foo");
    let step = generate_commit_message_request(&diff);
    let req = match step {
        CommitMessageStep::Ask(req) => req,
        CommitMessageStep::Done(msg) => panic!("expected a provider call, got {:?}", msg),
    };
    assert_eq!(
        req.user,
        "Analyze these changes and create a commit summary:\n```\n+foo (src/x.rs)\n\n```"
    );
    assert!(req.system.starts_with("You are a helpful AI that generates git commit messages."));
}

#[test]
fn custom_focus_is_embedded_verbatim() {
    let staged = one_line_diff("a.rs", "x");
    let step = analyze_changes_request(&staged, &DiffText::new(), Some("Focus on UI changes"));
    match step {
        AnalysisStep::Ask(req) => {
            assert!(req.user.contains("custom focus: Focus on UI changes"));
        }
        AnalysisStep::Done(g) => panic!("expected a provider call, got {:?}", g),
    }
}

#[test]
fn summarize_request_embeds_plain_diff_and_custom_prompt() {
    let mut diff = one_line_diff("a.rs", "added");
    diff.push_line(DiffLine {
        kind: LineKind::Context,
        path: Some("a.rs".to_string()),
        text: "kept".to_string(),
    });
    let req = summarize_diff_request(&diff, Some("Focus on security changes"));
    assert_eq!(
        req.user,
        "Please summarize this git diff:\n```\n+added\n kept\n\n```"
    );
    assert_eq!(
        req.system,
        "You are a helpful AI that summarizes git diffs. Focus on the key changes and their implications. Be concise but informative.. Additional instruction: Focus on security changes"
    );
    let plain = summarize_diff_request(&diff, None);
    assert_eq!(
        plain.system,
        "You are a helpful AI that summarizes git diffs. Focus on the key changes and their implications. Be concise but informative."
    );
}

#[test]
fn summarization_asks_even_for_an_empty_diff() {
    let req = summarize_diff_request(&DiffText::new(), None);
    assert_eq!(req.user, "Please summarize this git diff:\n```\n\n```");
}
