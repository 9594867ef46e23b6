//! The request/response halves of each generation task.
//!
//! Each task is split where the provider call happens: a request builder
//! turns diffs into a `PromptRequest` (or answers directly when no call is
//! owed), and a response reader turns the raw reply into the caller's value.
//! The caller performs the one network call in between.

use vstd::prelude::*;
use crate::diff::DiffText;
use crate::diff::spec_format_annotated;
use crate::diff::spec_format_plain;
use crate::diff::spec_format_prefixed;
use crate::error::EngineError;
use crate::json::parse_groups;
use crate::json::spec_parse_groups;
use crate::prompts::commit_system_prompt;
use crate::prompts::commit_user_message;
use crate::prompts::grouping_system_prompt;
use crate::prompts::grouping_user_message;
use crate::prompts::spec_commit_system;
use crate::prompts::spec_commit_user;
use crate::prompts::spec_grouping_system;
use crate::prompts::spec_grouping_user;
use crate::prompts::spec_summarize_system;
use crate::prompts::spec_summarize_user;
use crate::prompts::summarize_system_prompt;
use crate::prompts::summarize_user_message;
use vstd::string::StringExecFns;

verus! {

/// One request to a completion provider: a system prompt and one user
/// message. Stateless; built per call.
#[derive(Debug, Clone)]
pub struct PromptRequest {
    pub system: String,
    pub user: String,
}

/// What a commit-message task needs next: the finished answer, or one
/// provider call.
#[derive(Debug)]
pub enum CommitMessageStep {
    Done(String),
    Ask(PromptRequest),
}

/// What a grouping task needs next: the finished grouping, or one provider
/// call.
#[derive(Debug)]
pub enum AnalysisStep {
    Done(Vec<Vec<String>>),
    Ask(PromptRequest),
}

/// The combined, tagged text of the staged and unstaged diffs, as the
/// grouping prompt embeds it.
pub open spec fn spec_all_changes(staged: Seq<crate::diff::DiffLine>, unstaged: Seq<
    crate::diff::DiffLine>) -> Seq<char> {
    spec_format_prefixed("[Staged]"@, staged) + spec_format_prefixed("[Unstaged]"@, unstaged)
}

/// Build the one summarization request. Summarization never special-cases an
/// empty diff: the provider is always asked.
pub fn summarize_diff_request(diff: &DiffText, custom_prompt: Option<&str>) -> (r: PromptRequest)
    ensures
        r.system@ == spec_summarize_system(match custom_prompt {
            Some(c) => Some(c@),
            None => None,
        }),
        r.user@ == spec_summarize_user(spec_format_plain(diff.lines@)),
{
    let text = diff.format_plain();
    PromptRequest {
        system: summarize_system_prompt(custom_prompt),
        user: summarize_user_message(text.as_str()),
    }
}

/// Begin a commit-message task: when the annotated diff text is empty the
/// answer is the literal `No changes detected.` and no provider call is
/// made; otherwise the one request to send.
pub fn generate_commit_message_request(diff: &DiffText) -> (r: CommitMessageStep)
    ensures
        ({
            let changes = spec_format_annotated(diff.lines@);
            match r {
                CommitMessageStep::Done(msg) => changes.len() == 0 && msg@
                    == "No changes detected."@,
                CommitMessageStep::Ask(req) => changes.len() > 0 && req.system@
                    == spec_commit_system() && req.user@ == spec_commit_user(changes),
            }
        }),
{
    let changes = diff.format_annotated();
    if changes.as_str().unicode_len() == 0 {
        proof {
            assert(changes@ =~= Seq::<char>::empty());
        }
        CommitMessageStep::Done(String::from_str("No changes detected."))
    } else {
        let user = commit_user_message(changes.as_str());
        CommitMessageStep::Ask(
            PromptRequest { system: String::from_str(commit_system_prompt()), user },
        )
    }
}

/// Begin a grouping task: staged and unstaged diffs are formatted with their
/// tags and concatenated; when that text is empty the answer is the empty
/// grouping and no provider call is made; otherwise the one request to send.
pub fn analyze_changes_request(staged: &DiffText, unstaged: &DiffText, custom_focus: Option<
    &str>) -> (r: AnalysisStep)
    ensures
        ({
            let changes = spec_all_changes(staged.lines@, unstaged.lines@);
            match r {
                AnalysisStep::Done(g) => changes.len() == 0 && g.deep_view() == Seq::<Seq<
                    Seq<char>>>::empty(),
                AnalysisStep::Ask(req) => changes.len() > 0 && req.system@
                    == spec_grouping_system() && req.user@ == spec_grouping_user(
                    match custom_focus {
                        Some(f) => Some(f@),
                        None => None,
                    },
                    changes,
                ),
            }
        }),
{
    let mut all_changes = staged.format_prefixed("[Staged]");
    let unstaged_text = unstaged.format_prefixed("[Unstaged]");
    all_changes.append(unstaged_text.as_str());
    if all_changes.as_str().unicode_len() == 0 {
        let g: Vec<Vec<String>> = Vec::new();
        proof {
            assert(g.deep_view() =~= Seq::<Seq<Seq<char>>>::empty());
        }
        AnalysisStep::Done(g)
    } else {
        let user = grouping_user_message(custom_focus, all_changes.as_str());
        AnalysisStep::Ask(
            PromptRequest { system: String::from_str(grouping_system_prompt()), user },
        )
    }
}

/// Finish a grouping task: the raw reply parsed strictly as a JSON array of
/// arrays of file paths. A reply of any other shape is a parse error that
/// carries the raw text unchanged; there is no heuristic recovery.
pub fn analyze_changes_response(raw: String) -> (r: Result<Vec<Vec<String>>, EngineError>)
    ensures
        match r {
            Ok(g) => spec_parse_groups(raw@) == Some(g.deep_view()),
            Err(e) => spec_parse_groups(raw@) is None && (e matches
                EngineError::ResponseParseError { raw_response } && raw_response@ == raw@),
        },
{
    match parse_groups(raw.as_str()) {
        Some(g) => Ok(g),
        None => Err(EngineError::ResponseParseError { raw_response: raw }),
    }
}

} // verus!
