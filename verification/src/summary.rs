//! A summary in the making: the windows' prompts, the answers so far, and what
//! each new answer leads to.
//!
//! The caller sends the pending request, waits for what comes back and hands it to
//! `Summarization::advance`, which says whether another request is pending, the
//! summary is complete, or the work has failed. Windows are taken in order, and
//! the first failure ends the work.

use tiktoken_rust::Encoding;
use vstd::prelude::*;
use vstd::string::*;

use crate::chunk::{
    context_head,
    context_of,
    context_slice,
    context_tail,
    lemma_no_window_iff_no_token,
    lemma_window_bounds,
    partition,
    window_at,
    window_count,
    window_views,
    windows,
    WindowEnd,
    CHUNK_SPLIT_SIZE,
    CONTEXT_SIZE,
};
use crate::error::{ConfigView, ErrorView, SummaryError};
use crate::prompt::{
    chat_request,
    fragment_of,
    read_completion,
    window_request,
    ChatRequest,
    Completion,
    CompletionView,
    RequestView,
};
use crate::tokenizer::{
    all_known,
    covers_all_bytes,
    decode,
    decoded_text,
    encoded_tokens,
    knows_all,
    splittable,
    token_known,
    tokenize,
};

verus! {

/// The three texts put to the model for one window.
#[derive(Debug, PartialEq, Eq)]
pub struct WindowPrompt {
    /// The end of the window before, or nothing for the first window.
    pub previous: String,
    /// The window itself.
    pub current: String,
    /// The start of the window after, or nothing for the last window.
    pub next: String,
}

/// A `WindowPrompt` over sequences of characters.
pub struct PromptView {
    pub previous: Seq<char>,
    pub current: Seq<char>,
    pub next: Seq<char>,
}

impl View for WindowPrompt {
    type V = PromptView;

    open spec fn view(&self) -> PromptView {
        PromptView { previous: self.previous@, current: self.current@, next: self.next@ }
    }
}

/// The prompts that a vector holds.
pub open spec fn prompt_views(prompts: Seq<WindowPrompt>) -> Seq<PromptView> {
    Seq::new(prompts.len(), |i: int| prompts[i]@)
}

/// The answers that a vector holds.
pub open spec fn completion_views(replies: Seq<Completion>) -> Seq<CompletionView> {
    Seq::new(replies.len(), |i: int| replies[i]@)
}

/// The texts that a vector of strings holds.
pub open spec fn text_views(texts: Seq<String>) -> Seq<Seq<char>> {
    Seq::new(texts.len(), |i: int| texts[i]@)
}

/// The prompt for window `i`: the decoded window between the decoded tail of the
/// window before it and the decoded head of the window after it. The first
/// window has nothing before it and the last has nothing after it.
pub open spec fn prompt_at(enc: Encoding, windows: Seq<Seq<usize>>, context: nat, i: int)
    -> PromptView {
    PromptView {
        previous: if i == 0 {
            Seq::empty()
        } else {
            decoded_text(enc, context_tail(windows[i - 1], context))
        },
        current: decoded_text(enc, windows[i]),
        next: if i + 1 == windows.len() {
            Seq::empty()
        } else {
            decoded_text(enc, context_head(windows[i + 1], context))
        },
    }
}

/// The prompts for all windows, in window order.
pub open spec fn window_prompts(enc: Encoding, windows: Seq<Seq<usize>>, context: nat) -> Seq<
    PromptView,
> {
    Seq::new(windows.len(), |i: int| prompt_at(enc, windows, context, i))
}

/// The fragments joined by one newline between each two neighbours.
pub open spec fn join_lines(fragments: Seq<Seq<char>>) -> Seq<char>
    decreases fragments.len(),
{
    if fragments.len() == 0 {
        Seq::empty()
    } else if fragments.len() == 1 {
        fragments[0]
    } else {
        join_lines(fragments.drop_last()) + seq!['\n'] + fragments.last()
    }
}

/// A summary in the making, over sequences: the model, the prompts of all
/// windows, and the fragments that the first windows have been answered with.
pub struct SessionView {
    pub model: Seq<char>,
    pub prompts: Seq<PromptView>,
    pub fragments: Seq<Seq<char>>,
}

/// A window is still unanswered.
pub open spec fn well_formed(session: SessionView) -> bool {
    session.fragments.len() < session.prompts.len()
}

/// The request for the first unanswered window.
pub open spec fn pending_request(session: SessionView) -> RequestView {
    let prompt = session.prompts[session.fragments.len() as int];
    window_request(session.model, prompt.previous, prompt.current, prompt.next)
}

/// What an answer leads to, over sequences.
pub enum ProgressView {
    Pending(SessionView),
    Finished(Seq<char>),
    Failed(ErrorView),
}

/// What the answer to the pending request leads to. An answer with a choice adds
/// its first choice to the fragments; that completes the summary if it was the
/// last window's, and leaves the next window pending otherwise. Anything else
/// ends the work with an error.
pub open spec fn step(session: SessionView, completion: CompletionView) -> ProgressView {
    match fragment_of(completion) {
        Err(error) => ProgressView::Failed(error),
        Ok(fragment) => {
            let fragments = session.fragments.push(fragment);
            if fragments.len() == session.prompts.len() {
                ProgressView::Finished(join_lines(fragments))
            } else {
                ProgressView::Pending(
                    SessionView { model: session.model, prompts: session.prompts, fragments },
                )
            }
        },
    }
}

/// The request that puts `prompt` to `model`.
pub open spec fn request_for(model: Seq<char>, prompt: PromptView) -> RequestView {
    window_request(model, prompt.previous, prompt.current, prompt.next)
}

/// The summaries that answers hold, for answers that each hold one.
pub open spec fn fragments_of(replies: Seq<CompletionView>) -> Seq<Seq<char>> {
    Seq::new(replies.len(), |i: int| fragment_of(replies[i])->Ok_0)
}

/// Where the work stands after the pending requests have been answered by
/// `replies`, one after the other. Once the work has ended, with a summary or
/// with an error, later replies change nothing.
pub open spec fn run(session: SessionView, replies: Seq<CompletionView>) -> ProgressView
    decreases replies.len(),
{
    if replies.len() == 0 {
        ProgressView::Pending(session)
    } else {
        match step(session, replies[0]) {
            ProgressView::Pending(next) => run(next, replies.drop_first()),
            end => end,
        }
    }
}

/// The requests that are sent while `replies` come back: the pending one for each
/// reply, until the work has ended.
pub open spec fn requests_sent(session: SessionView, replies: Seq<CompletionView>) -> Seq<
    RequestView,
>
    decreases replies.len(),
{
    if replies.len() == 0 {
        Seq::empty()
    } else {
        seq![pending_request(session)] + (match step(session, replies[0]) {
            ProgressView::Pending(next) => requests_sent(next, replies.drop_first()),
            _ => Seq::empty(),
        })
    }
}

/// A summary in the making. At least one window is unanswered.
#[derive(Debug)]
pub struct Summarization {
    model: String,
    prompts: Vec<WindowPrompt>,
    fragments: Vec<String>,
}

/// What an answer leads to.
#[derive(Debug)]
pub enum Progress {
    /// Another window is pending: send its request.
    Pending(Summarization),
    /// Every window is answered: the field holds the summary.
    Finished(String),
    /// The work has ended without a summary.
    Failed(SummaryError),
}

impl View for Progress {
    type V = ProgressView;

    open spec fn view(&self) -> ProgressView {
        match self {
            Progress::Pending(session) => ProgressView::Pending(session@),
            Progress::Finished(summary) => ProgressView::Finished(summary@),
            Progress::Failed(error) => ProgressView::Failed(error@),
        }
    }
}

impl View for Summarization {
    type V = SessionView;

    closed spec fn view(&self) -> SessionView {
        SessionView {
            model: self.model@,
            prompts: prompt_views(self.prompts@),
            fragments: text_views(self.fragments@),
        }
    }
}

/// A slice from the end of a window holds only tokens of the window.
pub proof fn lemma_context_known(enc: Encoding, window: Seq<usize>, end: WindowEnd, size: nat)
    requires
        all_known(enc, window),
    ensures
        all_known(enc, context_of(window, end, size)),
{
    let slice = context_of(window, end, size);
    assert forall|i: int| 0 <= i < slice.len() implies token_known(
        enc,
        #[trigger] slice[i],
    ) by {
        if size <= window.len() {
            match end {
                WindowEnd::Head => {
                    assert(slice[i] == window[i]);
                },
                WindowEnd::Tail => {
                    assert(slice[i] == window[window.len() - size + i]);
                },
            }
        }
    }
}

/// Joins the fragments with newlines.
pub fn join_fragments(fragments: &Vec<String>) -> (summary: String)
    ensures
        summary@ == join_lines(text_views(fragments@)),
{
    let mut summary = String::new();
    let mut i: usize = 0;
    let ghost texts = text_views(fragments@);
    while i < fragments.len()
        invariant
            i <= fragments.len(),
            texts == text_views(fragments@),
            summary@ == join_lines(texts.take(i as int)),
        decreases fragments.len() - i,
    {
        proof {
            reveal_strlit("\n");
            let before = texts.take(i as int);
            let after = texts.take(i + 1);
            assert(after.drop_last() == before);
            assert(after.last() == fragments@[i as int]@);
            assert("\n"@ == seq!['\n']);
        }
        if i > 0 {
            summary.append("\n");
        }
        summary.append(fragments[i].as_str());
        i = i + 1;
    }
    assert(texts.take(i as int) == texts);
    summary
}

impl Summarization {
    #[verifier::type_invariant]
    spec fn window_pending(self) -> bool {
        self.fragments@.len() < self.prompts@.len()
    }

    /// A summary of which no window is answered yet, or `None` where there is no
    /// window at all.
    pub fn new(model: String, prompts: Vec<WindowPrompt>) -> (session: Option<Summarization>)
        ensures
            match session {
                Some(session) => {
                    &&& prompts@.len() > 0
                    &&& session@ == (SessionView {
                        model: model@,
                        prompts: prompt_views(prompts@),
                        fragments: Seq::empty(),
                    })
                },
                None => prompts@.len() == 0,
            },
    {
        if prompts.len() == 0 {
            None
        } else {
            let session = Summarization { model, prompts, fragments: Vec::new() };
            assert(session@.fragments =~= Seq::empty());
            Some(session)
        }
    }

    /// Number of windows.
    pub fn window_count(&self) -> (count: usize)
        ensures
            count == self@.prompts.len(),
            well_formed(self@),
    {
        proof {
            use_type_invariant(self);
        }
        self.prompts.len()
    }

    /// Number of windows answered so far, which is the index of the pending one.
    pub fn position(&self) -> (index: usize)
        ensures
            index == self@.fragments.len(),
            well_formed(self@),
    {
        proof {
            use_type_invariant(self);
        }
        self.fragments.len()
    }

    /// The prompt of the pending window.
    pub fn prompt(&self) -> (prompt: &WindowPrompt)
        ensures
            well_formed(self@),
            prompt@ == self@.prompts[self@.fragments.len() as int],
    {
        proof {
            use_type_invariant(self);
        }
        &self.prompts[self.fragments.len()]
    }

    /// The request to send next.
    pub fn request(&self) -> (request: ChatRequest)
        ensures
            well_formed(self@),
            request@ == pending_request(self@),
    {
        let prompt = self.prompt();
        chat_request(
            self.model.as_str(),
            prompt.previous.as_str(),
            prompt.current.as_str(),
            prompt.next.as_str(),
        )
    }

    /// Takes what came back for the pending request.
    pub fn advance(self, completion: Completion) -> (progress: Progress)
        ensures
            well_formed(self@),
            progress@ == step(self@, completion@),
    {
        proof {
            use_type_invariant(&self);
        }
        match read_completion(completion) {
            Err(error) => Progress::Failed(error),
            Ok(fragment) => {
                let ghost before = self@;
                let Summarization { model, prompts, fragments } = self;
                let mut fragments = fragments;
                fragments.push(fragment);
                assert(text_views(fragments@) =~= before.fragments.push(fragment@));
                if fragments.len() == prompts.len() {
                    Progress::Finished(join_fragments(&fragments))
                } else {
                    Progress::Pending(Summarization { model, prompts, fragments })
                }
            },
        }
    }

    /// Takes answers that are at hand already, in the order in which the requests
    /// would have been sent. Answers that come after the end of the work are
    /// left aside.
    pub fn replay(self, replies: Vec<Completion>) -> (progress: Progress)
        ensures
            progress@ == run(self@, completion_views(replies@)),
    {
        let mut session = self;
        let mut rest = replies;
        while rest.len() > 0
            invariant
                run(session@, completion_views(rest@)) == run(self@, completion_views(replies@)),
            decreases rest.len(),
        {
            let ghost before = completion_views(rest@);
            let reply = rest.remove(0);
            assert(completion_views(rest@) =~= before.drop_first());
            assert(reply@ == before[0]);
            match session.advance(reply) {
                Progress::Pending(next) => {
                    session = next;
                },
                Progress::Finished(summary) => {
                    return Progress::Finished(summary);
                },
                Progress::Failed(error) => {
                    return Progress::Failed(error);
                },
            }
        }
        Progress::Pending(session)
    }
}

/// Decodes the prompts of all windows.
pub fn build_prompts(enc: &Encoding, windows: &Vec<Vec<usize>>, context_size: usize) -> (prompts:
    Vec<WindowPrompt>)
    requires
        forall|i: int| 0 <= i < windows@.len() ==> all_known(*enc, (#[trigger] windows@[i])@),
    ensures
        prompt_views(prompts@) == window_prompts(
            *enc,
            window_views(windows@),
            context_size as nat,
        ),
{
    let ghost views = window_views(windows@);
    let mut prompts: Vec<WindowPrompt> = Vec::new();
    let mut i: usize = 0;
    while i < windows.len()
        invariant
            i <= windows.len(),
            prompts@.len() == i,
            views == window_views(windows@),
            forall|j: int| 0 <= j < windows@.len() ==> all_known(*enc, (#[trigger] windows@[j])@),
            forall|j: int|
                0 <= j < i ==> (#[trigger] prompts@[j])@ == prompt_at(
                    *enc,
                    views,
                    context_size as nat,
                    j,
                ),
        decreases windows.len() - i,
    {
        let previous = if i == 0 {
            String::new()
        } else {
            proof {
                lemma_context_known(
                    *enc,
                    windows@[i - 1]@,
                    WindowEnd::Tail,
                    context_size as nat,
                );
            }
            decode(enc, context_slice(windows[i - 1].as_slice(), WindowEnd::Tail, context_size))
        };
        let current = decode(enc, windows[i].as_slice());
        let next = if i + 1 == windows.len() {
            String::new()
        } else {
            proof {
                lemma_context_known(
                    *enc,
                    windows@[i + 1]@,
                    WindowEnd::Head,
                    context_size as nat,
                );
            }
            decode(enc, context_slice(windows[i + 1].as_slice(), WindowEnd::Head, context_size))
        };
        prompts.push(WindowPrompt { previous, current, next });
        i = i + 1;
    }
    assert(prompt_views(prompts@) =~= window_prompts(*enc, views, context_size as nat));
    prompts
}

/// A `Result` of a summary in the making or an error, over sequences.
pub open spec fn session_result_view(result: Result<Summarization, SummaryError>) -> Result<
    SessionView,
    ErrorView,
> {
    match result {
        Ok(session) => Ok(session@),
        Err(error) => Err(error@),
    }
}

/// What is planned for a document of the given tokens: nothing where there is no
/// token, else one prompt for each window of `CHUNK_SPLIT_SIZE` tokens, with
/// contexts of `CONTEXT_SIZE` tokens, and no window answered.
pub open spec fn planned(model: Seq<char>, enc: Encoding, tokens: Seq<usize>) -> Result<
    SessionView,
    ErrorView,
> {
    if tokens.len() == 0 {
        Err(ErrorView::NoTokens)
    } else {
        Ok(
            SessionView {
                model,
                prompts: window_prompts(
                    enc,
                    windows(tokens, CHUNK_SPLIT_SIZE as nat),
                    CONTEXT_SIZE as nat,
                ),
                fragments: Seq::empty(),
            },
        )
    }
}

/// What is planned for a document of the given text: an empty text is refused,
/// then an encoding that cannot encode every text, then a text that the encoding
/// cannot split, and what is left is planned for the text's tokens.
pub open spec fn summarized(model: Seq<char>, enc: Encoding, text: Seq<char>) -> Result<
    SessionView,
    ErrorView,
> {
    if text.len() == 0 {
        Err(ErrorView::EmptyInput)
    } else if !covers_all_bytes(enc) {
        Err(ErrorView::Configuration(ConfigView::IncompleteEncoding))
    } else if !splittable(text) {
        Err(ErrorView::UnbrokenText)
    } else {
        planned(model, enc, encoded_tokens(enc, text))
    }
}

/// A window holds only tokens of the sequence.
pub proof fn lemma_window_known(enc: Encoding, tokens: Seq<usize>, chunk: nat, i: int)
    requires
        chunk > 0,
        all_known(enc, tokens),
        0 <= i < window_count(tokens.len(), chunk),
    ensures
        all_known(enc, window_at(tokens, chunk, i)),
{
    lemma_window_bounds(tokens.len(), chunk, i);
    let window = window_at(tokens, chunk, i);
    assert forall|j: int| 0 <= j < window.len() implies token_known(enc, #[trigger] window[j]) by {
        assert(window[j] == tokens[i * chunk + j]);
    }
}

/// Plans the summary of a document from its tokens, which the encoding must know.
pub fn plan(model: &str, enc: &Encoding, tokens: &[usize]) -> (result: Result<
    Summarization,
    SummaryError,
>)
    requires
        all_known(*enc, tokens@),
    ensures
        session_result_view(result) == planned(model@, *enc, tokens@),
{
    match partition(tokens, CHUNK_SPLIT_SIZE) {
        Err(error) => Err(error),
        Ok(parts) => {
            proof {
                let chunk = CHUNK_SPLIT_SIZE as nat;
                lemma_no_window_iff_no_token(tokens@.len(), chunk);
                assert forall|i: int| 0 <= i < parts@.len() implies all_known(
                    *enc,
                    (#[trigger] parts@[i])@,
                ) by {
                    lemma_window_known(*enc, tokens@, chunk, i);
                    assert(parts@[i]@ == window_views(parts@)[i]);
                }
            }
            let prompts = build_prompts(enc, &parts, CONTEXT_SIZE);
            assert(prompts@.len() == prompt_views(prompts@).len());
            match Summarization::new(String::from_str(model), prompts) {
                Some(session) => Ok(session),
                None => Err(SummaryError::NoTokens),
            }
        },
    }
}

/// Plans the summary of a document from tokens of any origin: `None` where the
/// encoding does not know one of them, else what `plan` gives.
pub fn plan_checked(model: &str, enc: &Encoding, tokens: &[usize]) -> (result: Option<
    Result<Summarization, SummaryError>,
>)
    ensures
        match result {
            Some(planning) => {
                &&& all_known(*enc, tokens@)
                &&& session_result_view(planning) == planned(model@, *enc, tokens@)
            },
            None => !all_known(*enc, tokens@),
        },
{
    if knows_all(enc, tokens) {
        Some(plan(model, enc, tokens))
    } else {
        None
    }
}

/// Plans the summary of a document from its text.
pub fn start(model: &str, enc: &Encoding, text: &str) -> (result: Result<
    Summarization,
    SummaryError,
>)
    ensures
        session_result_view(result) == summarized(model@, *enc, text@),
{
    match tokenize(enc, text) {
        Err(error) => Err(error),
        Ok(tokens) => plan(model, enc, tokens.as_slice()),
    }
}

} // verus!
