use git_ai::error::EngineError;
use git_ai::provider::ContentPart;
use git_ai::provider::EngineConfig;
use git_ai::provider::ModelProvider;
use git_ai::provider::join_text_parts;
use git_ai::provider::openai_choice_text;
use git_ai::provider::openai_model_id;
use git_ai::provider::select_provider;
use git_ai::provider::MAX_COMPLETION_TOKENS;

fn config(
    has_anthropic: bool,
    has_openai: bool,
    forced_provider: Option<ModelProvider>,
) -> EngineConfig {
    EngineConfig { has_anthropic, has_openai, forced_provider }
}

#[test]
fn selection_with_no_forced_provider() {
    assert_eq!(
        select_provider(&config(true, true, None)),
        Ok(ModelProvider::Anthropic)
    );
    assert_eq!(
        select_provider(&config(true, false, None)),
        Ok(ModelProvider::Anthropic)
    );
    assert_eq!(
        select_provider(&config(false, true, None)),
        Ok(ModelProvider::OpenAI)
    );
    assert_eq!(
        select_provider(&config(false, false, None)),
        Err(EngineError::NoProviderAvailable)
    );
}

#[test]
fn selection_with_forced_anthropic() {
    let forced = Some(ModelProvider::Anthropic);
    assert_eq!(
        select_provider(&config(true, true, forced.clone())),
        Ok(ModelProvider::Anthropic)
    );
    assert_eq!(
        select_provider(&config(true, false, forced.clone())),
        Ok(ModelProvider::Anthropic)
    );
    // the forced provider has no credential: selection falls through
    assert_eq!(
        select_provider(&config(false, true, forced.clone())),
        Ok(ModelProvider::OpenAI)
    );
    assert_eq!(
        select_provider(&config(false, false, forced)),
        Err(EngineError::NoProviderAvailable)
    );
}

#[test]
fn selection_with_forced_openai() {
    let forced = Some(ModelProvider::OpenAI);
    assert_eq!(
        select_provider(&config(true, true, forced.clone())),
        Ok(ModelProvider::OpenAI)
    );
    // the forced provider has no credential: selection falls through
    assert_eq!(
        select_provider(&config(true, false, forced.clone())),
        Ok(ModelProvider::Anthropic)
    );
    assert_eq!(
        select_provider(&config(false, true, forced.clone())),
        Ok(ModelProvider::OpenAI)
    );
    assert_eq!(
        select_provider(&config(false, false, forced)),
        Err(EngineError::NoProviderAvailable)
    );
}

#[test]
fn selection_is_deterministic() {
    let a = select_provider(&config(true, true, Some(ModelProvider::OpenAI)));
    let b = select_provider(&config(true, true, Some(ModelProvider::OpenAI)));
    assert_eq!(a, b);
}

#[test]
fn fixed_model_parameters() {
    assert_eq!(openai_model_id(), "gpt-3.5-turbo");
    assert_eq!(MAX_COMPLETION_TOKENS, 4096);
}

#[test]
fn text_blocks_join_with_single_space() {
    let parts = vec![
        ContentPart::Text("first".to_string()),
        ContentPart::Other,
        ContentPart::Text("second".to_string()),
        ContentPart::Text("third".to_string()),
    ];
    assert_eq!(join_text_parts(&parts), "first second third");
}

#[test]
fn text_blocks_empty_and_single() {
    assert_eq!(join_text_parts(&vec![]), "");
    assert_eq!(join_text_parts(&vec![ContentPart::Other]), "");
    assert_eq!(
        join_text_parts(&vec![ContentPart::Text("only".to_string())]),
        "only"
    );
}

#[test]
fn openai_reply_uses_content_or_fallback() {
    assert_eq!(openai_choice_text(Some("hello".to_string())), "hello");
    assert_eq!(openai_choice_text(None), "No response available.");
}

#[test]
fn error_messages() {
    assert_eq!(
        EngineError::NoProviderAvailable.message(),
        "No AI provider available. Please set ANTHROPIC_API_KEY or OPENAI_API_KEY environment variable."
    );
    let e = EngineError::ProviderError {
        provider: "Anthropic".to_string(),
        message: "boom".to_string(),
    };
    assert_eq!(e.message(), "Anthropic API error: boom");
    let p = EngineError::ResponseParseError { raw_response: "not json".to_string() };
    assert_eq!(
        p.message(),
        "Failed to parse AI response as JSON array of file groups. Response was: not json"
    );
}
