//! Provider identities, engine configuration, and the selection policy.

use vstd::prelude::*;
use vstd::string::StringExecFns;
use crate::error::EngineError;

verus! {

/// One of the two interchangeable completion providers.
#[derive(Debug, Clone, PartialEq, Eq, Structural)]
pub enum ModelProvider {
    Anthropic,
    OpenAI,
}

/// What the engine knows at selection time: which credentials were supplied,
/// and whether the user forced a provider.
///
/// Constructed once at process start and read-only thereafter.
#[derive(Debug, Clone)]
pub struct EngineConfig {
    pub has_anthropic: bool,
    pub has_openai: bool,
    pub forced_provider: Option<ModelProvider>,
}

/// Whether a credential for `p` is present in `c`.
pub open spec fn provider_available(c: EngineConfig, p: ModelProvider) -> bool {
    match p {
        ModelProvider::Anthropic => c.has_anthropic,
        ModelProvider::OpenAI => c.has_openai,
    }
}

/// The selection policy, in priority order: a forced provider whose client
/// exists; else Anthropic; else OpenAI; else none.
///
/// A forced provider whose credential is absent is advisory only: selection
/// falls through to the default preference order instead of failing.
pub open spec fn spec_selected_provider(c: EngineConfig) -> Option<ModelProvider> {
    if c.forced_provider == Some(ModelProvider::Anthropic) && c.has_anthropic {
        Some(ModelProvider::Anthropic)
    } else if c.forced_provider == Some(ModelProvider::OpenAI) && c.has_openai {
        Some(ModelProvider::OpenAI)
    } else if c.has_anthropic {
        Some(ModelProvider::Anthropic)
    } else if c.has_openai {
        Some(ModelProvider::OpenAI)
    } else {
        None
    }
}

/// Pick the provider to use for one generation call, or fail when no
/// credential is present at all.
pub fn select_provider(config: &EngineConfig) -> (r: Result<ModelProvider, EngineError>)
    ensures
        match r {
            Ok(p) => spec_selected_provider(*config) == Some(p),
            Err(e) => spec_selected_provider(*config) is None && e
                == EngineError::NoProviderAvailable,
        },
{
    let forced_anthropic = match &config.forced_provider {
        Some(ModelProvider::Anthropic) => true,
        _ => false,
    };
    let forced_openai = match &config.forced_provider {
        Some(ModelProvider::OpenAI) => true,
        _ => false,
    };
    if forced_anthropic && config.has_anthropic {
        Ok(ModelProvider::Anthropic)
    } else if forced_openai && config.has_openai {
        Ok(ModelProvider::OpenAI)
    } else if config.has_anthropic {
        Ok(ModelProvider::Anthropic)
    } else if config.has_openai {
        Ok(ModelProvider::OpenAI)
    } else {
        Err(EngineError::NoProviderAvailable)
    }
}

/// Selection is a function of the configuration alone, and follows the exact
/// priority order: an available forced provider wins; otherwise Anthropic is
/// preferred, then OpenAI; with no credential at all, nothing is selected.
pub proof fn lemma_selection_priority(c: EngineConfig)
    ensures
        forall|p: ModelProvider|
            c.forced_provider == Some(p) && provider_available(c, p)
                ==> spec_selected_provider(c) == Some(p),
        (c.forced_provider matches Some(p) ==> !provider_available(c, p)) && c.has_anthropic
            ==> spec_selected_provider(c) == Some(ModelProvider::Anthropic),
        (c.forced_provider matches Some(p) ==> !provider_available(c, p)) && !c.has_anthropic
            && c.has_openai ==> spec_selected_provider(c) == Some(ModelProvider::OpenAI),
        !c.has_anthropic && !c.has_openai ==> spec_selected_provider(c) is None,
{
}

/// The fixed model identifier sent with OpenAI-style requests. The
/// Anthropic-style client takes its model identifier from its own client
/// library.
pub fn openai_model_id() -> (r: &'static str)
    ensures
        r@ == "gpt-3.5-turbo"@,
{
    "gpt-3.5-turbo"
}

/// The fixed ceiling on generated tokens, for either provider.
pub const MAX_COMPLETION_TOKENS: u32 = 4096;

/// One block of an Anthropic-style response: either text, or something the
/// engine ignores.
#[derive(Debug, Clone)]
pub enum ContentPart {
    Text(String),
    Other,
}

/// The text blocks of a response, in order, with non-text blocks dropped.
pub open spec fn spec_text_parts(parts: Seq<ContentPart>) -> Seq<Seq<char>>
    decreases parts.len(),
{
    if parts.len() == 0 {
        Seq::empty()
    } else {
        let init = spec_text_parts(parts.drop_last());
        match parts.last() {
            ContentPart::Text(t) => init.push(t@),
            ContentPart::Other => init,
        }
    }
}

/// Texts joined with a single space separator.
pub open spec fn spec_join_space(texts: Seq<Seq<char>>) -> Seq<char>
    decreases texts.len(),
{
    if texts.len() == 0 {
        Seq::empty()
    } else if texts.len() == 1 {
        texts[0]
    } else {
        spec_join_space(texts.drop_last()) + seq![' '] + texts.last()
    }
}

/// Assemble an Anthropic-style reply: all text blocks, joined with a single
/// space; non-text blocks are ignored.
pub fn join_text_parts(parts: &Vec<ContentPart>) -> (r: String)
    ensures
        r@ == spec_join_space(spec_text_parts(parts@)),
{
    let mut out = String::new();
    let mut first = true;
    let mut i: usize = 0;
    while i < parts.len()
        invariant
            0 <= i <= parts@.len(),
            first == (spec_text_parts(parts@.take(i as int)).len() == 0),
            out@ == spec_join_space(spec_text_parts(parts@.take(i as int))),
        decreases parts@.len() - i,
    {
        proof {
            assert(parts@.take(i + 1 as int).drop_last() =~= parts@.take(i as int));
            reveal_strlit(" ");
            assert(" "@ =~= seq![' ']);
        }
        match &parts[i] {
            ContentPart::Text(t) => {
                proof {
                    let prev = spec_text_parts(parts@.take(i as int));
                    assert(spec_text_parts(parts@.take(i + 1 as int)) == prev.push(t@));
                    assert(prev.push(t@).drop_last() =~= prev);
                }
                if !first {
                    out.append(" ");
                }
                out.append(t.as_str());
                first = false;
            },
            ContentPart::Other => {},
        }
        i = i + 1;
    }
    proof {
        assert(parts@.take(parts@.len() as int) =~= parts@);
    }
    out
}

/// Interpret an OpenAI-style reply: the first choice's content, or the
/// literal fallback when it is absent.
pub fn openai_choice_text(content: Option<String>) -> (r: String)
    ensures
        match content {
            Some(s) => r@ == s@,
            None => r@ == "No response available."@,
        },
{
    match content {
        Some(s) => s,
        None => String::from_str("No response available."),
    }
}

} // verus!
