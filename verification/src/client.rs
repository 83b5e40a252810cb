//! The client: how it is configured, and what it asks for a document.

use tiktoken_rust::Encoding;
use vstd::prelude::*;
use vstd::string::*;

use crate::error::{ConfigError, ConfigView, ErrorView, SummaryError};
use crate::prompt::{chat_request, window_request, ChatRequest};
use crate::summary::{
    plan_checked,
    planned,
    session_result_view,
    start,
    summarized,
    Summarization,
};
use crate::tokenizer::all_known;

verus! {

/// A source of document text.
pub trait PdfReader {

}

/// The document side of the work. It holds nothing.
#[derive(Debug, Default)]
pub struct PdfClient {}

/// The text of an optional string.
pub open spec fn optional_text(text: Option<String>) -> Option<Seq<char>> {
    match text {
        Some(text) => Some(text@),
        None => None,
    }
}

/// Collects the settings of a client.
pub struct OpenAIClientBuilder {
    api_key: String,
    http_proxy: Option<String>,
    model: String,
    max_token: u16,
    encoding: Option<Encoding>,
}

/// The settings that a builder holds.
pub struct BuilderView {
    pub api_key: Seq<char>,
    pub http_proxy: Option<Seq<char>>,
    pub model: Seq<char>,
    pub max_token: u16,
    pub encoding: Option<Encoding>,
}

impl View for OpenAIClientBuilder {
    type V = BuilderView;

    closed spec fn view(&self) -> BuilderView {
        BuilderView {
            api_key: self.api_key@,
            http_proxy: optional_text(self.http_proxy),
            model: self.model@,
            max_token: self.max_token,
            encoding: self.encoding,
        }
    }
}

/// A configured client: a credential, a model and an encoding, with an optional
/// proxy for the transport and the model's token budget.
#[derive(Debug)]
pub struct OpenAIClient {
    api_key: String,
    http_proxy: Option<String>,
    model: String,
    max_token: u16,
    encoding: Encoding,
}

/// The settings of a client.
pub struct ClientView {
    pub api_key: Seq<char>,
    pub http_proxy: Option<Seq<char>>,
    pub model: Seq<char>,
    pub max_token: u16,
    pub encoding: Encoding,
}

impl View for OpenAIClient {
    type V = ClientView;

    closed spec fn view(&self) -> ClientView {
        ClientView {
            api_key: self.api_key@,
            http_proxy: optional_text(self.http_proxy),
            model: self.model@,
            max_token: self.max_token,
            encoding: self.encoding,
        }
    }
}

/// A `Result` of a client or an error, over sequences.
pub open spec fn client_result_view(result: Result<OpenAIClient, SummaryError>) -> Result<
    ClientView,
    ErrorView,
> {
    match result {
        Ok(client) => Ok(client@),
        Err(error) => Err(error@),
    }
}

/// The reason, as text, with which `reqwest::Proxy::all` refuses the address
/// `uri`, or `None` where it makes a proxy of it.
pub uninterp spec fn proxy_refusal(uri: Seq<char>) -> Option<Seq<char>>;

/// Calls `reqwest::Proxy::all` and hands back its reason where it refuses `uri`.
///
/// Trusted: the answer is that function's verdict on the text of `uri` alone. It
/// reads the text as a URL, with `http://` put before it where it has no scheme,
/// and takes the schemes `http` and `https`; it looks nothing up. Its error is
/// rendered as text, which names the fault found in the address.
#[verifier::external_body]
fn refuse_proxy(uri: &str) -> (refusal: Option<String>)
    ensures
        optional_text(refusal) == proxy_refusal(uri@),
{
    match reqwest::Proxy::all(uri) {
        Ok(_) => None,
        Err(error) => Some(error.to_string()),
    }
}

/// The reason for which the proxy cannot be used, or `None` where none is set or
/// the transport accepts its address.
pub open spec fn proxy_fault(http_proxy: Option<Seq<char>>) -> Option<Seq<char>> {
    match http_proxy {
        Some(uri) => proxy_refusal(uri),
        None => None,
    }
}

/// What building leads to: the first of credential, model and encoding that is
/// missing is reported, then a proxy that the transport refuses, with the
/// transport's reason; where nothing is wrong, the client holds the settings as
/// given.
pub open spec fn built(settings: BuilderView) -> Result<ClientView, ErrorView> {
    if settings.api_key.len() == 0 {
        Err(ErrorView::Configuration(ConfigView::MissingApiKey))
    } else if settings.model.len() == 0 {
        Err(ErrorView::Configuration(ConfigView::MissingModel))
    } else {
        match settings.encoding {
            None => Err(ErrorView::Configuration(ConfigView::MissingEncoding)),
            Some(encoding) => match proxy_fault(settings.http_proxy) {
                Some(reason) => Err(ErrorView::Configuration(ConfigView::InvalidProxy(reason))),
                None => Ok(
                    ClientView {
                        api_key: settings.api_key,
                        http_proxy: settings.http_proxy,
                        model: settings.model,
                        max_token: settings.max_token,
                        encoding,
                    },
                ),
            },
        }
    }
}

/// The model that a client is configured for where nothing else is asked.
pub const DEFAULT_MODEL: &'static str = "gpt-3.5-turbo";

/// The token budget of `DEFAULT_MODEL`.
pub const TOKEN_LIMIT: u16 = 4000;

/// The proxy that is kept of the one found in the environment: an address that
/// starts with `http`, and nothing else.
pub open spec fn kept_proxy(proxy: Option<Seq<char>>) -> Option<Seq<char>> {
    match proxy {
        Some(uri) => if "http"@.is_prefix_of(uri) {
            Some(uri)
        } else {
            None
        },
        None => None,
    }
}

/// Whether `uri` starts with `http`.
pub fn starts_with_http(uri: &str) -> (starts: bool)
    ensures
        starts == "http"@.is_prefix_of(uri@),
{
    proof {
        reveal_strlit("http");
    }
    if uri.unicode_len() < 4 {
        return false;
    }
    let starts = uri.get_char(0) == 'h' && uri.get_char(1) == 't' && uri.get_char(2) == 't'
        && uri.get_char(3) == 'p';
    proof {
        let head = uri@.subrange(0, 4);
        if starts {
            assert("http"@ =~= head);
        } else {
            assert("http"@[0] == 'h' && "http"@[1] == 't' && "http"@[2] == 't' && "http"@[3]
                == 'p');
            assert(head[0] == uri@[0] && head[1] == uri@[1] && head[2] == uri@[2] && head[3]
                == uri@[3]);
        }
    }
    starts
}

/// Keeps the proxy if its address starts with `http`.
pub fn keep_proxy(proxy: Option<String>) -> (kept: Option<String>)
    ensures
        optional_text(kept) == kept_proxy(optional_text(proxy)),
{
    match proxy {
        Some(uri) => if starts_with_http(uri.as_str()) {
            Some(uri)
        } else {
            None
        },
        None => None,
    }
}

/// Makes the client for the default model and its token budget, from what the
/// environment holds: the credential, and a proxy that is used only if its
/// address starts with `http`.
pub fn configure(api_key: String, proxy: Option<String>, encoding: Encoding) -> (result: Result<
    OpenAIClient,
    SummaryError,
>)
    ensures
        client_result_view(result) == built(
            (BuilderView {
                api_key: api_key@,
                http_proxy: kept_proxy(optional_text(proxy)),
                model: DEFAULT_MODEL@,
                max_token: TOKEN_LIMIT,
                encoding: Some(encoding),
            }),
        ),
{
    OpenAIClient::builder().with_api_key(api_key).with_http_proxy(keep_proxy(proxy)).with_model(
        DEFAULT_MODEL,
    ).with_max_token(TOKEN_LIMIT).with_encoding(encoding).build()
}

impl Default for OpenAIClientBuilder {
    /// A builder in which nothing is set.
    fn default() -> (builder: OpenAIClientBuilder)
        ensures
            builder@ == (BuilderView {
                api_key: Seq::empty(),
                http_proxy: None,
                model: Seq::empty(),
                max_token: 0,
                encoding: None,
            }),
    {
        OpenAIClientBuilder {
            api_key: String::new(),
            http_proxy: None,
            model: String::new(),
            max_token: 0,
            encoding: None,
        }
    }
}

impl OpenAIClientBuilder {
    /// Sets the API credential.
    pub fn with_api_key(self, api_key: String) -> (builder: OpenAIClientBuilder)
        ensures
            builder@ == (BuilderView { api_key: api_key@, ..self@ }),
    {
        let mut builder = self;
        builder.api_key = api_key;
        builder
    }

    /// Sets or clears the proxy of the transport.
    pub fn with_http_proxy(self, http_proxy: Option<String>) -> (builder: OpenAIClientBuilder)
        ensures
            builder@ == (BuilderView { http_proxy: optional_text(http_proxy), ..self@ }),
    {
        let mut builder = self;
        builder.http_proxy = http_proxy;
        builder
    }

    /// Sets the model identifier.
    pub fn with_model(self, model: &str) -> (builder: OpenAIClientBuilder)
        ensures
            builder@ == (BuilderView { model: model@, ..self@ }),
    {
        let mut builder = self;
        builder.model = String::from_str(model);
        builder
    }

    /// Sets the model's token budget.
    pub fn with_max_token(self, max_token: u16) -> (builder: OpenAIClientBuilder)
        ensures
            builder@ == (BuilderView { max_token, ..self@ }),
    {
        let mut builder = self;
        builder.max_token = max_token;
        builder
    }

    /// Sets the encoding.
    pub fn with_encoding(self, encoding: Encoding) -> (builder: OpenAIClientBuilder)
        ensures
            builder@ == (BuilderView { encoding: Some(encoding), ..self@ }),
    {
        let mut builder = self;
        builder.encoding = Some(encoding);
        builder
    }

    /// Makes the client, or says which setting is missing or wrong.
    pub fn build(self) -> (result: Result<OpenAIClient, SummaryError>)
        ensures
            client_result_view(result) == built(self@),
    {
        if self.api_key.as_str().is_empty() {
            return Err(SummaryError::Configuration(ConfigError::MissingApiKey));
        }
        if self.model.as_str().is_empty() {
            return Err(SummaryError::Configuration(ConfigError::MissingModel));
        }
        match self.encoding {
            None => Err(SummaryError::Configuration(ConfigError::MissingEncoding)),
            Some(encoding) => {
                let fault = match &self.http_proxy {
                    Some(uri) => refuse_proxy(uri.as_str()),
                    None => None,
                };
                if let Some(reason) = fault {
                    return Err(SummaryError::Configuration(ConfigError::InvalidProxy(reason)));
                }
                Ok(
                    OpenAIClient {
                        api_key: self.api_key,
                        http_proxy: self.http_proxy,
                        model: self.model,
                        max_token: self.max_token,
                        encoding,
                    },
                )
            },
        }
    }
}

impl OpenAIClient {
    /// A builder in which nothing is set.
    pub fn builder() -> (builder: OpenAIClientBuilder)
        ensures
            builder@ == (BuilderView {
                api_key: Seq::empty(),
                http_proxy: None,
                model: Seq::empty(),
                max_token: 0,
                encoding: None,
            }),
    {
        OpenAIClientBuilder::default()
    }

    /// The API credential.
    pub fn api_key(&self) -> (api_key: &str)
        ensures
            api_key@ == self@.api_key,
    {
        self.api_key.as_str()
    }

    /// The proxy of the transport, if one is set.
    pub fn http_proxy(&self) -> (http_proxy: &Option<String>)
        ensures
            optional_text(*http_proxy) == self@.http_proxy,
    {
        &self.http_proxy
    }

    /// The model identifier.
    pub fn model(&self) -> (model: &str)
        ensures
            model@ == self@.model,
    {
        self.model.as_str()
    }

    /// The model's token budget.
    pub fn max_token(&self) -> (max_token: u16)
        ensures
            max_token == self@.max_token,
    {
        self.max_token
    }

    /// The encoding.
    pub fn encoding(&self) -> (encoding: &Encoding)
        ensures
            *encoding == self@.encoding,
    {
        &self.encoding
    }

    /// The request that asks for the summary of one window: `curr` is the window's
    /// text, `prev` the end of the window before it and `next` the start of the
    /// window after it.
    pub fn do_summary(&self, prev: &str, curr: &str, next: &str) -> (request: ChatRequest)
        ensures
            request@ == window_request(self@.model, prev@, curr@, next@),
    {
        chat_request(self.model.as_str(), prev, curr, next)
    }

    /// Plans the summary of a document from its tokens: `None` where the encoding
    /// does not know one of them.
    pub fn plan(&self, tokens: &[usize]) -> (result: Option<Result<Summarization, SummaryError>>)
        ensures
            match result {
                Some(planning) => {
                    &&& all_known(self@.encoding, tokens@)
                    &&& session_result_view(planning) == planned(
                        self@.model,
                        self@.encoding,
                        tokens@,
                    )
                },
                None => !all_known(self@.encoding, tokens@),
            },
    {
        plan_checked(self.model.as_str(), &self.encoding, tokens)
    }

    /// Plans the summary of a document from its text. What comes back holds the
    /// first request; each answer is handed to `Summarization::advance`.
    pub fn summarization(&self, text: String) -> (result: Result<Summarization, SummaryError>)
        ensures
            session_result_view(result) == summarized(self@.model, self@.encoding, text@),
    {
        start(self.model.as_str(), &self.encoding, text.as_str())
    }
}

} // verus!
