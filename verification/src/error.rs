//! The error taxonomy of the library.

use vstd::prelude::*;
use vstd::string::StringExecFns;

verus! {

/// Why a generation call failed.
///
/// Every error is terminal for the current invocation: the library never
/// retries and never recovers heuristically.
#[derive(Debug, Clone, PartialEq, Eq)]
pub enum EngineError {
    /// No credential is present for any provider.
    NoProviderAvailable,
    /// A transport or API-level failure of one provider.
    ProviderError { provider: String, message: String },
    /// The model's reply did not match the expected JSON shape; the raw reply
    /// is kept so the caller can diagnose prompt drift.
    ResponseParseError { raw_response: String },
}

impl EngineError {
    /// The user-facing message for this error.
    pub fn message(&self) -> (r: String)
        ensures
            match self {
                EngineError::NoProviderAvailable => r@
                    == "No AI provider available. Please set ANTHROPIC_API_KEY or OPENAI_API_KEY environment variable."@,
                EngineError::ProviderError { provider, message } => r@ == provider@
                    + " API error: "@ + message@,
                EngineError::ResponseParseError { raw_response } => r@
                    == "Failed to parse AI response as JSON array of file groups. Response was: "@
                    + raw_response@,
            },
    {
        match self {
            EngineError::NoProviderAvailable => String::from_str(
                "No AI provider available. Please set ANTHROPIC_API_KEY or OPENAI_API_KEY environment variable.",
            ),
            EngineError::ProviderError { provider, message } => {
                let mut s = provider.clone();
                s.append(" API error: ");
                s.append(message.as_str());
                s
            },
            EngineError::ResponseParseError { raw_response } => {
                let mut s = String::from_str(
                    "Failed to parse AI response as JSON array of file groups. Response was: ",
                );
                s.append(raw_response.as_str());
                s
            },
        }
    }
}

} // verus!
