//! The ways in which a summary can fail.

use vstd::prelude::*;
use vstd::string::*;

verus! {

/// What is wrong with a client's configuration.
#[derive(Debug, PartialEq, Eq)]
pub enum ConfigError {
    /// No API credential was given.
    MissingApiKey,
    /// No model identifier was given.
    MissingModel,
    /// No token encoding was given.
    MissingEncoding,
    /// The encoding has no token for some single byte, so it cannot encode every text.
    IncompleteEncoding,
    /// The transport refuses the address given for the proxy; the field holds its
    /// reason as text.
    InvalidProxy(String),
}

/// A `ConfigError` with its text as a sequence of characters.
pub enum ConfigView {
    MissingApiKey,
    MissingModel,
    MissingEncoding,
    IncompleteEncoding,
    InvalidProxy(Seq<char>),
}

impl View for ConfigError {
    type V = ConfigView;

    open spec fn view(&self) -> ConfigView {
        match self {
            ConfigError::MissingApiKey => ConfigView::MissingApiKey,
            ConfigError::MissingModel => ConfigView::MissingModel,
            ConfigError::MissingEncoding => ConfigView::MissingEncoding,
            ConfigError::IncompleteEncoding => ConfigView::IncompleteEncoding,
            ConfigError::InvalidProxy(reason) => ConfigView::InvalidProxy(reason@),
        }
    }
}

/// Why no summary was produced.
#[derive(Debug, PartialEq, Eq)]
pub enum SummaryError {
    /// The document text is empty.
    EmptyInput,
    /// The document text yields no token, hence no window.
    NoTokens,
    /// The document text holds a stretch without a word break that is too long
    /// for the encoding to split.
    UnbrokenText,
    /// A completion request failed; the field holds the cause as text.
    CompletionRequest(String),
    /// A completion request was answered without any choice.
    NoSummaryProduced,
    /// The client was not configured for the work.
    Configuration(ConfigError),
}

/// A `SummaryError` with its text as a sequence of characters.
pub enum ErrorView {
    EmptyInput,
    NoTokens,
    UnbrokenText,
    CompletionRequest(Seq<char>),
    NoSummaryProduced,
    Configuration(ConfigView),
}

impl View for SummaryError {
    type V = ErrorView;

    open spec fn view(&self) -> ErrorView {
        match self {
            SummaryError::EmptyInput => ErrorView::EmptyInput,
            SummaryError::NoTokens => ErrorView::NoTokens,
            SummaryError::UnbrokenText => ErrorView::UnbrokenText,
            SummaryError::CompletionRequest(cause) => ErrorView::CompletionRequest(cause@),
            SummaryError::NoSummaryProduced => ErrorView::NoSummaryProduced,
            SummaryError::Configuration(what) => ErrorView::Configuration(what@),
        }
    }
}

/// The message that describes a configuration error. A refused proxy is described
/// by the transport's reason, as it stands.
pub open spec fn config_error_text(what: ConfigView) -> Seq<char> {
    match what {
        ConfigView::MissingApiKey => "OpenAI API KEY is missing"@,
        ConfigView::MissingModel => "AI model name is missing"@,
        ConfigView::MissingEncoding => "Encoding is missing"@,
        ConfigView::IncompleteEncoding => "Encoding has no token for some byte"@,
        ConfigView::InvalidProxy(reason) => reason,
    }
}

/// The message that describes an error. A failed request is described by a fixed
/// prefix followed by its cause.
pub open spec fn error_text(error: ErrorView) -> Seq<char> {
    match error {
        ErrorView::EmptyInput => "nothing to summarize, just return"@,
        ErrorView::NoTokens => "no tokens found for input text"@,
        ErrorView::UnbrokenText => "input text has a stretch without a word break that is too long"@,
        ErrorView::CompletionRequest(cause) => "openai chat failed: "@ + cause,
        ErrorView::NoSummaryProduced => "no summary found."@,
        ErrorView::Configuration(what) => config_error_text(what),
    }
}

impl ConfigError {
    /// The message for this error.
    pub fn message(&self) -> (text: String)
        ensures
            text@ == config_error_text(self@),
    {
        match self {
            ConfigError::MissingApiKey => String::from_str("OpenAI API KEY is missing"),
            ConfigError::MissingModel => String::from_str("AI model name is missing"),
            ConfigError::MissingEncoding => String::from_str("Encoding is missing"),
            ConfigError::IncompleteEncoding => String::from_str(
                "Encoding has no token for some byte",
            ),
            ConfigError::InvalidProxy(reason) => reason.clone(),
        }
    }
}

impl SummaryError {
    /// The message for this error.
    pub fn message(&self) -> (text: String)
        ensures
            text@ == error_text(self@),
    {
        match self {
            SummaryError::EmptyInput => String::from_str("nothing to summarize, just return"),
            SummaryError::NoTokens => String::from_str("no tokens found for input text"),
            SummaryError::UnbrokenText => String::from_str(
                "input text has a stretch without a word break that is too long",
            ),
            SummaryError::CompletionRequest(cause) => {
                String::from_str("openai chat failed: ").concat(cause.as_str())
            },
            SummaryError::NoSummaryProduced => String::from_str("no summary found."),
            SummaryError::Configuration(what) => what.message(),
        }
    }
}

} // verus!
