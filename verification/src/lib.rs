pub mod error;
pub mod provider;
pub mod strutil;
pub mod json;
pub mod diff;
pub mod prompts;
pub mod analyzer;
pub mod summary;
pub mod pr;
pub mod status;
pub mod report;
pub mod ui;
