use pdf_summary::{ConfigError, SummaryError};

#[test]
fn messages_of_summary_errors() {
    assert_eq!(SummaryError::EmptyInput.message(), "nothing to summarize, just return");
    assert_eq!(SummaryError::NoTokens.message(), "no tokens found for input text");
    assert_eq!(
        SummaryError::UnbrokenText.message(),
        "input text has a stretch without a word break that is too long"
    );
    assert_eq!(SummaryError::NoSummaryProduced.message(), "no summary found.");
    assert_eq!(
        SummaryError::CompletionRequest("timed out".to_string()).message(),
        "openai chat failed: timed out"
    );
}

#[test]
fn messages_of_configuration_errors() {
    assert_eq!(ConfigError::MissingApiKey.message(), "OpenAI API KEY is missing");
    assert_eq!(ConfigError::MissingModel.message(), "AI model name is missing");
    assert_eq!(ConfigError::MissingEncoding.message(), "Encoding is missing");
    assert_eq!(
        ConfigError::IncompleteEncoding.message(),
        "Encoding has no token for some byte"
    );
    assert_eq!(
        ConfigError::InvalidProxy("builder error: unknown proxy scheme".to_string()).message(),
        "builder error: unknown proxy scheme"
    );
    assert_eq!(
        SummaryError::Configuration(ConfigError::MissingModel).message(),
        "AI model name is missing"
    );
}
