//! The prompt texts, kept as literal configuration constants, and the
//! builders that embed diff text and user focus into them.
//!
//! The grouping system prompt deliberately encodes a strong bias toward a
//! single group; that bias is policy, not an accident of wording.

use vstd::prelude::*;
use vstd::string::StringExecFns;

verus! {

/// The base system prompt for diff summarization.
pub open spec fn spec_summarize_base() -> Seq<char> {
    "You are a helpful AI that summarizes git diffs. Focus on the key changes and their implications. Be concise but informative."@
}

/// The system prompt for commit-message generation.
pub open spec fn spec_commit_system() -> Seq<char> {
    "You are a helpful AI that generates git commit messages. Follow these rules strictly:\n1. Format must be:\n- First line: Short summary in imperative mood, max 50 chars\n- Blank line\n- Detailed description wrapped at 72 chars\n2. First line must:\n- Use imperative mood ('Add' not 'Added')\n- Not end with a period\n- Be max 50 characters\n- Accurately describe the main change in the diff\n3. Description must:\n- Start with a blank line after the summary\n- Explain WHY the changes in the diff were made\n- Wrap text at 72 characters\n- Use proper punctuation\n- Be specific to the actual changes shown\n- Include affected files or components"@
}

/// The system prompt for change grouping: prefer one group, and answer with
/// only a JSON array of arrays of file paths.
pub open spec fn spec_grouping_system() -> Seq<char> {
    "You are an expert Git user who thinks holistically about changes. FIRST AND MOST IMPORTANT RULE: If all the changes could reasonably be part of one development effort, return them as a single group. Default to this approach unless there are COMPLETELY unrelated changes. When deciding whether to group ALL changes together, consider: - Are they part of the same general development session? - Could they be described under one high-level goal? - Do they affect related areas of the codebase? - Would they make sense to review together? If YES to ANY of these, PUT EVERYTHING IN ONE GROUP. Only split into multiple groups if you find changes that are: 1. Completely different features with zero relationship 2. Fixes for entirely separate bugs 3. Changes that absolutely cannot be described in one commit message Examples of changes that should be ONE group: - A feature implementation + its tests + docs + config changes - Multiple refactorings across the codebase - A mix of bug fixes in related components - Frontend changes + related backend updates - Multiple improvements to similar functionality Remember: - STRONGLY PREFER one large group over multiple small ones - If unsure, put everything in one group - It's better to group too much than too little - Only split if it would be IMPOSSIBLE to describe the changes together IMPORTANT: Your response must be a valid JSON array where each element is an array of file paths. Example response format: [[\"file1.rs\", \"file2.rs\", \"test1.rs\", \"mod.rs\", \"config.toml\", \"docs.md\"]] Note how the example shows everything in ONE group - this is what we usually want! Only output the JSON array, no other text or explanations."@
}

/// The summarization system prompt, with an optional extra instruction
/// appended.
pub open spec fn spec_summarize_system(custom: Option<Seq<char>>) -> Seq<char> {
    match custom {
        Some(c) => spec_summarize_base() + ". Additional instruction: "@ + c,
        None => spec_summarize_base(),
    }
}

/// The user message for diff summarization.
pub open spec fn spec_summarize_user(diff_text: Seq<char>) -> Seq<char> {
    "Please summarize this git diff:\n```\n"@ + diff_text + "\n```"@
}

/// The user message for commit-message generation.
pub open spec fn spec_commit_user(changes: Seq<char>) -> Seq<char> {
    "Analyze these changes and create a commit summary:\n```\n"@ + changes + "\n```"@
}

/// The user message for change grouping, with the custom focus text or the
/// literal `none` in its place.
pub open spec fn spec_grouping_user(focus: Option<Seq<char>>, changes: Seq<char>) -> Seq<char> {
    "Group these changes by feature (custom focus: "@ + (match focus {
        Some(f) => f,
        None => "none"@,
    }) + "):\n```\n"@ + changes + "\n```"@
}

pub fn grouping_system_prompt() -> (r: &'static str)
    ensures
        r@ == spec_grouping_system(),
{
    "You are an expert Git user who thinks holistically about changes. FIRST AND MOST IMPORTANT RULE: If all the changes could reasonably be part of one development effort, return them as a single group. Default to this approach unless there are COMPLETELY unrelated changes. When deciding whether to group ALL changes together, consider: - Are they part of the same general development session? - Could they be described under one high-level goal? - Do they affect related areas of the codebase? - Would they make sense to review together? If YES to ANY of these, PUT EVERYTHING IN ONE GROUP. Only split into multiple groups if you find changes that are: 1. Completely different features with zero relationship 2. Fixes for entirely separate bugs 3. Changes that absolutely cannot be described in one commit message Examples of changes that should be ONE group: - A feature implementation + its tests + docs + config changes - Multiple refactorings across the codebase - A mix of bug fixes in related components - Frontend changes + related backend updates - Multiple improvements to similar functionality Remember: - STRONGLY PREFER one large group over multiple small ones - If unsure, put everything in one group - It's better to group too much than too little - Only split if it would be IMPOSSIBLE to describe the changes together IMPORTANT: Your response must be a valid JSON array where each element is an array of file paths. Example response format: [[\"file1.rs\", \"file2.rs\", \"test1.rs\", \"mod.rs\", \"config.toml\", \"docs.md\"]] Note how the example shows everything in ONE group - this is what we usually want! Only output the JSON array, no other text or explanations."
}

pub fn commit_system_prompt() -> (r: &'static str)
    ensures
        r@ == spec_commit_system(),
{
    "You are a helpful AI that generates git commit messages. Follow these rules strictly:\n1. Format must be:\n- First line: Short summary in imperative mood, max 50 chars\n- Blank line\n- Detailed description wrapped at 72 chars\n2. First line must:\n- Use imperative mood ('Add' not 'Added')\n- Not end with a period\n- Be max 50 characters\n- Accurately describe the main change in the diff\n3. Description must:\n- Start with a blank line after the summary\n- Explain WHY the changes in the diff were made\n- Wrap text at 72 characters\n- Use proper punctuation\n- Be specific to the actual changes shown\n- Include affected files or components"
}

/// The extra instruction handed to summarization when a pull-request body is
/// wanted.
pub fn pr_description_focus() -> (r: &'static str)
    ensures
        r@
            == "Generate a detailed pull request description that explains the changes, their purpose, and any important implementation details. Include a high-level summary at the start."@,
{
    "Generate a detailed pull request description that explains the changes, their purpose, and any important implementation details. Include a high-level summary at the start."
}

pub fn summarize_system_prompt(custom: Option<&str>) -> (r: String)
    ensures
        r@ == spec_summarize_system(match custom {
            Some(c) => Some(c@),
            None => None,
        }),
{
    let base =
        "You are a helpful AI that summarizes git diffs. Focus on the key changes and their implications. Be concise but informative.";
    match custom {
        Some(c) => {
            let mut s = String::from_str(base);
            s.append(". Additional instruction: ");
            s.append(c);
            s
        },
        None => String::from_str(base),
    }
}

pub fn summarize_user_message(diff_text: &str) -> (r: String)
    ensures
        r@ == spec_summarize_user(diff_text@),
{
    let mut s = String::from_str("Please summarize this git diff:\n```\n");
    s.append(diff_text);
    s.append("\n```");
    s
}

pub fn commit_user_message(changes: &str) -> (r: String)
    ensures
        r@ == spec_commit_user(changes@),
{
    let mut s = String::from_str("Analyze these changes and create a commit summary:\n```\n");
    s.append(changes);
    s.append("\n```");
    s
}

pub fn grouping_user_message(focus: Option<&str>, changes: &str) -> (r: String)
    ensures
        r@ == spec_grouping_user(
            match focus {
                Some(f) => Some(f@),
                None => None,
            },
            changes@,
        ),
{
    let mut s = String::from_str("Group these changes by feature (custom focus: ");
    match focus {
        Some(f) => s.append(f),
        None => s.append("none"),
    }
    s.append("):\n```\n");
    s.append(changes);
    s.append("\n```");
    s
}

} // verus!
