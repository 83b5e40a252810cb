//! What is asked of the chat model for one window, and what is read from its answer.

use vstd::prelude::*;
use vstd::string::*;

use crate::error::{ErrorView, SummaryError};

verus! {

/// The instruction that opens every request. It describes the task and the three
/// blocks of the message that follows it.
pub const SYSTEM_PROMPT: &'static str = r"\
You are an assistant. \
Your only job is summarize a PDF file. File content is provided as text chunks by the user. \
When summarize each chunk, you should consider a few more words from previous chunk \
and a few words from next chunk for better result. \
The following format will be used to send text chunk:\n \
<previous>
`````` // empty OR words from last chunk sent to you, delimited with triple backticks

<current>
`````` // text to summarize this iteration, delimited with triple backticks

<next>
`````` // empty OR words from next chunk will send to you, delimited with triple backticks

The summary should mimic tone of original content, and pay attention to relation between chunks.
organize summary in paragraphs";

/// Randomness asked of the model, in thousandths: low, for answers that vary little.
pub const TEMPERATURE_PERMILLE: u16 = 200;

/// Who speaks in a message of a request.
#[derive(Clone, Copy, Debug, PartialEq, Eq, Structural)]
pub enum Role {
    System,
    User,
}

/// One message of a request.
#[derive(Debug, PartialEq, Eq)]
pub struct ChatMessage {
    pub role: Role,
    pub content: String,
}

/// A `ChatMessage` with its content as a sequence of characters.
pub struct MessageView {
    pub role: Role,
    pub content: Seq<char>,
}

impl View for ChatMessage {
    type V = MessageView;

    open spec fn view(&self) -> MessageView {
        MessageView { role: self.role, content: self.content@ }
    }
}

/// One completion request: the model, the randomness, and the messages in order.
#[derive(Debug, PartialEq, Eq)]
pub struct ChatRequest {
    pub model: String,
    pub temperature_permille: u16,
    pub messages: Vec<ChatMessage>,
}

/// A `ChatRequest` over sequences.
pub struct RequestView {
    pub model: Seq<char>,
    pub temperature_permille: u16,
    pub messages: Seq<MessageView>,
}

impl View for ChatRequest {
    type V = RequestView;

    open spec fn view(&self) -> RequestView {
        RequestView {
            model: self.model@,
            temperature_permille: self.temperature_permille,
            messages: Seq::new(self.messages@.len(), |i: int| self.messages@[i]@),
        }
    }
}

/// What came back from one completion request.
#[derive(Debug, PartialEq, Eq)]
pub enum Completion {
    /// The request was answered; the field holds the content of each choice, in
    /// the order of the answer.
    Choices(Vec<String>),
    /// The request failed; the field holds the cause as text.
    Failed(String),
}

/// A `Completion` over sequences.
pub enum CompletionView {
    Choices(Seq<Seq<char>>),
    Failed(Seq<char>),
}

impl View for Completion {
    type V = CompletionView;

    open spec fn view(&self) -> CompletionView {
        match self {
            Completion::Choices(choices) => CompletionView::Choices(
                Seq::new(choices@.len(), |i: int| choices@[i]@),
            ),
            Completion::Failed(cause) => CompletionView::Failed(cause@),
        }
    }
}

/// The user's message for one window: three blocks, each between triple
/// backticks, that hold the end of the previous window, the window itself and
/// the start of the next window.
pub open spec fn user_prompt(previous: Seq<char>, current: Seq<char>, next: Seq<char>) -> Seq<
    char,
> {
    "\n<previous>\n```"@ + previous + "```\n\n<current>\n```"@ + current
        + "```\n\n<next>\n```"@ + next + "```\n"@
}

/// The request for one window: the fixed instruction, then the user's message.
pub open spec fn window_request(
    model: Seq<char>,
    previous: Seq<char>,
    current: Seq<char>,
    next: Seq<char>,
) -> RequestView {
    RequestView {
        model,
        temperature_permille: TEMPERATURE_PERMILLE,
        messages: seq![
            MessageView { role: Role::System, content: SYSTEM_PROMPT@ },
            MessageView { role: Role::User, content: user_prompt(previous, current, next) },
        ],
    }
}

/// The summary that an answer holds: the first choice, whatever follows it. An
/// answer without choices holds none, and a failed request is reported with its cause.
pub open spec fn fragment_of(completion: CompletionView) -> Result<Seq<char>, ErrorView> {
    match completion {
        CompletionView::Choices(choices) => if choices.len() == 0 {
            Err(ErrorView::NoSummaryProduced)
        } else {
            Ok(choices[0])
        },
        CompletionView::Failed(cause) => Err(ErrorView::CompletionRequest(cause)),
    }
}

/// A `Result` of a text or an error, over sequences.
pub open spec fn text_result_view(result: Result<String, SummaryError>) -> Result<
    Seq<char>,
    ErrorView,
> {
    match result {
        Ok(text) => Ok(text@),
        Err(error) => Err(error@),
    }
}

/// Writes the user's message for one window.
pub fn user_message(previous: &str, current: &str, next: &str) -> (content: String)
    ensures
        content@ == user_prompt(previous@, current@, next@),
{
    let mut content = String::from_str("\n<previous>\n```");
    content.append(previous);
    content.append("```\n\n<current>\n```");
    content.append(current);
    content.append("```\n\n<next>\n```");
    content.append(next);
    content.append("```\n");
    content
}

/// Builds the request for one window.
pub fn chat_request(model: &str, previous: &str, current: &str, next: &str) -> (request:
    ChatRequest)
    ensures
        request@ == window_request(model@, previous@, current@, next@),
{
    let mut messages: Vec<ChatMessage> = Vec::new();
    messages.push(ChatMessage { role: Role::System, content: String::from_str(SYSTEM_PROMPT) });
    messages.push(
        ChatMessage { role: Role::User, content: user_message(previous, current, next) },
    );
    let request = ChatRequest {
        model: String::from_str(model),
        temperature_permille: TEMPERATURE_PERMILLE,
        messages,
    };
    assert(request@.messages =~= window_request(model@, previous@, current@, next@).messages);
    request
}

/// Reads the summary from an answer.
pub fn read_completion(completion: Completion) -> (result: Result<String, SummaryError>)
    ensures
        text_result_view(result) == fragment_of(completion@),
{
    match completion {
        Completion::Choices(choices) => {
            let mut choices = choices;
            if choices.len() == 0 {
                Err(SummaryError::NoSummaryProduced)
            } else {
                Ok(choices.remove(0))
            }
        },
        Completion::Failed(cause) => Err(SummaryError::CompletionRequest(cause)),
    }
}

} // verus!
