//! What holds of every summary: which requests are sent, in what order, and what
//! comes of the answers.

use tiktoken_rust::Encoding;
use vstd::prelude::*;

use crate::chunk::{
    context_head,
    context_tail,
    lemma_no_window_iff_no_token,
    lemma_window_bounds,
    lemma_window_lengths,
    window_at,
    window_count,
    windows,
    CHUNK_SPLIT_SIZE,
    CONTEXT_SIZE,
};
use crate::error::ErrorView;
use crate::prompt::{fragment_of, window_request, CompletionView};
use crate::summary::{
    fragments_of,
    join_lines,
    pending_request,
    planned,
    prompt_at,
    request_for,
    requests_sent,
    run,
    step,
    summarized,
    well_formed,
    ProgressView,
    SessionView,
};
use crate::tokenizer::decoded_text;

verus! {

/// A document that fits in one window is asked about once, with nothing before
/// and nothing after the window, and the answer's first choice is the summary,
/// unchanged.
pub proof fn law_single_window(
    model: Seq<char>,
    enc: Encoding,
    tokens: Seq<usize>,
    completion: CompletionView,
)
    requires
        window_count(tokens.len(), CHUNK_SPLIT_SIZE as nat) == 1,
    ensures
        planned(model, enc, tokens) is Ok,
        planned(model, enc, tokens)->Ok_0.prompts.len() == 1,
        pending_request(planned(model, enc, tokens)->Ok_0) == window_request(
            model,
            Seq::empty(),
            decoded_text(enc, tokens),
            Seq::empty(),
        ),
        fragment_of(completion) is Ok ==> step(planned(model, enc, tokens)->Ok_0, completion)
            == ProgressView::Finished(fragment_of(completion)->Ok_0),
        fragment_of(completion) is Ok ==> requests_sent(
            planned(model, enc, tokens)->Ok_0,
            seq![completion],
        ).len() == 1,
{
    let chunk = CHUNK_SPLIT_SIZE as nat;
    lemma_no_window_iff_no_token(tokens.len(), chunk);
    lemma_window_bounds(tokens.len(), chunk, 0);
    let session = planned(model, enc, tokens)->Ok_0;
    assert(0 * chunk == 0) by (nonlinear_arith);
    assert(window_at(tokens, chunk, 0) == tokens);
    if fragment_of(completion) is Ok {
        let fragment = fragment_of(completion)->Ok_0;
        assert(session.fragments.push(fragment).len() == 1);
        assert(join_lines(session.fragments.push(fragment)) == fragment);
        assert(seq![completion].drop_first().len() == 0);
    }
}

/// Where every answer holds a choice, each window is asked about once, in window
/// order, and the summary is the first choices joined by newlines, in the same
/// order. Stated for a summary of which some windows may be answered already.
pub proof fn law_every_window_answered(session: SessionView, replies: Seq<CompletionView>)
    requires
        well_formed(session),
        replies.len() == session.prompts.len() - session.fragments.len(),
        forall|i: int| 0 <= i < replies.len() ==> fragment_of(#[trigger] replies[i]) is Ok,
    ensures
        run(session, replies) == ProgressView::Finished(
            join_lines(session.fragments + fragments_of(replies)),
        ),
        requests_sent(session, replies) == Seq::new(
            replies.len(),
            |i: int| request_for(session.model, session.prompts[session.fragments.len() + i]),
        ),
    decreases replies.len(),
{
    let fragment = fragment_of(replies[0])->Ok_0;
    let fragments = session.fragments.push(fragment);
    let rest = replies.drop_first();
    let expected = Seq::new(
        replies.len(),
        |i: int| request_for(session.model, session.prompts[session.fragments.len() + i]),
    );
    if fragments.len() == session.prompts.len() {
        assert(session.fragments + fragments_of(replies) =~= fragments);
        assert(requests_sent(session, replies) =~= expected);
    } else {
        let next = SessionView { model: session.model, prompts: session.prompts, fragments };
        assert forall|i: int| 0 <= i < rest.len() implies fragment_of(#[trigger] rest[i]) is Ok by {
            assert(rest[i] == replies[i + 1]);
        }
        law_every_window_answered(next, rest);
        assert(fragments_of(rest) =~= fragments_of(replies).drop_first()) by {
            assert forall|i: int| 0 <= i < rest.len() implies fragments_of(rest)[i]
                == fragments_of(replies).drop_first()[i] by {
                assert(rest[i] == replies[i + 1]);
            }
        }
        assert(next.fragments + fragments_of(rest) =~= session.fragments + fragments_of(replies));
        assert(requests_sent(session, replies) =~= expected);
    }
}

/// A document of `k` windows whose requests are all answered with a choice is asked
/// about `k` times, window by window, and its summary is the `k` first choices
/// joined by newlines.
pub proof fn law_document_summary(
    model: Seq<char>,
    enc: Encoding,
    tokens: Seq<usize>,
    replies: Seq<CompletionView>,
)
    requires
        tokens.len() > 0,
        replies.len() == window_count(tokens.len(), CHUNK_SPLIT_SIZE as nat),
        forall|i: int| 0 <= i < replies.len() ==> fragment_of(#[trigger] replies[i]) is Ok,
    ensures
        planned(model, enc, tokens) is Ok,
        run(planned(model, enc, tokens)->Ok_0, replies) == ProgressView::Finished(
            join_lines(fragments_of(replies)),
        ),
        requests_sent(planned(model, enc, tokens)->Ok_0, replies) == Seq::new(
            replies.len(),
            |i: int|
                request_for(
                    model,
                    prompt_at(
                        enc,
                        windows(tokens, CHUNK_SPLIT_SIZE as nat),
                        CONTEXT_SIZE as nat,
                        i,
                    ),
                ),
        ),
{
    let session = planned(model, enc, tokens)->Ok_0;
    lemma_no_window_iff_no_token(tokens.len(), CHUNK_SPLIT_SIZE as nat);
    law_every_window_answered(session, replies);
    assert(session.fragments + fragments_of(replies) =~= fragments_of(replies));
    assert(requests_sent(session, replies) =~= Seq::new(
        replies.len(),
        |i: int|
            request_for(
                model,
                prompt_at(enc, windows(tokens, CHUNK_SPLIT_SIZE as nat), CONTEXT_SIZE as nat, i),
            ),
    ));
}

/// A summary comes only of answers that all hold a choice, one for each window
/// that was unanswered, and exactly that many requests are sent for it.
pub proof fn law_summary_needs_every_window(session: SessionView, replies: Seq<CompletionView>)
    requires
        well_formed(session),
        run(session, replies) is Finished,
    ensures
        replies.len() >= session.prompts.len() - session.fragments.len(),
        forall|i: int|
            0 <= i < session.prompts.len() - session.fragments.len() ==> fragment_of(
                #[trigger] replies[i],
            ) is Ok,
        requests_sent(session, replies).len() == session.prompts.len() - session.fragments.len(),
    decreases replies.len(),
{
    let open = session.prompts.len() - session.fragments.len();
    match step(session, replies[0]) {
        ProgressView::Pending(next) => {
            let rest = replies.drop_first();
            law_summary_needs_every_window(next, rest);
            assert forall|i: int| 0 <= i < open implies fragment_of(#[trigger] replies[i]) is Ok by {
                if i > 0 {
                    assert(rest[i - 1] == replies[i]);
                }
            }
        },
        _ => {},
    }
}

/// A summary of `k` fragments holds `k - 1` newlines besides the fragments.
pub proof fn law_newlines_between(fragments: Seq<Seq<char>>)
    requires
        fragments.len() > 0,
    ensures
        join_lines(fragments).len() == fragments.flatten().len() + fragments.len() - 1,
    decreases fragments.len(),
{
    if fragments.len() == 1 {
        fragments.lemma_flatten_one_element();
    } else {
        law_newlines_between(fragments.drop_last());
        fragments.drop_last().lemma_flatten_push(fragments.last());
        assert(fragments.drop_last().push(fragments.last()) == fragments);
    }
}

/// The first answer that holds no summary ends the work with its error, and no
/// request follows it: where answer `j` is the first such, `j + 1` requests are
/// sent, whatever answers might have come after. An answer without choices
/// gives `NoSummaryProduced`, a failed request `CompletionRequest` with its cause.
pub proof fn law_first_failure_ends(session: SessionView, replies: Seq<CompletionView>, j: int)
    requires
        well_formed(session),
        0 <= j < replies.len(),
        j < session.prompts.len() - session.fragments.len(),
        forall|i: int| 0 <= i < j ==> fragment_of(#[trigger] replies[i]) is Ok,
        fragment_of(replies[j]) is Err,
    ensures
        run(session, replies) == ProgressView::Failed(fragment_of(replies[j])->Err_0),
        requests_sent(session, replies).len() == j + 1,
        replies[j] == CompletionView::Choices(Seq::empty()) ==> run(session, replies)
            == ProgressView::Failed(ErrorView::NoSummaryProduced),
    decreases j,
{
    if j > 0 {
        let fragment = fragment_of(replies[0])->Ok_0;
        let fragments = session.fragments.push(fragment);
        let next = SessionView { model: session.model, prompts: session.prompts, fragments };
        let rest = replies.drop_first();
        assert forall|i: int| 0 <= i < j - 1 implies fragment_of(#[trigger] rest[i]) is Ok by {
            assert(rest[i] == replies[i + 1]);
        }
        assert(rest[j - 1] == replies[j]);
        law_first_failure_ends(next, rest, j - 1);
    }
}

/// The contexts of a window: the window before it gives its last `CONTEXT_SIZE`
/// tokens, decoded, and the window after it its first `CONTEXT_SIZE` tokens, or
/// all of its tokens where it has fewer, decoded. The first window has nothing
/// before it and the last window has nothing after it.
pub proof fn law_context_construction(model: Seq<char>, enc: Encoding, tokens: Seq<usize>, i: int)
    requires
        0 <= i < window_count(tokens.len(), CHUNK_SPLIT_SIZE as nat),
    ensures
        planned(model, enc, tokens) is Ok,
        planned(model, enc, tokens)->Ok_0.prompts.len() == window_count(
            tokens.len(),
            CHUNK_SPLIT_SIZE as nat,
        ),
        ({
            let parts = windows(tokens, CHUNK_SPLIT_SIZE as nat);
            let prompt = planned(model, enc, tokens)->Ok_0.prompts[i];
            let context = CONTEXT_SIZE as int;
            &&& prompt.current == decoded_text(enc, parts[i])
            &&& i == 0 ==> prompt.previous == Seq::<char>::empty()
            &&& i > 0 ==> parts[i - 1].len() >= context && prompt.previous == decoded_text(
                enc,
                parts[i - 1].subrange(parts[i - 1].len() - context, parts[i - 1].len() as int),
            )
            &&& i + 1 == parts.len() ==> prompt.next == Seq::<char>::empty()
            &&& i + 1 < parts.len() ==> prompt.next == decoded_text(
                enc,
                context_head(parts[i + 1], CONTEXT_SIZE as nat),
            )
            &&& i + 1 < parts.len() && parts[i + 1].len() >= context ==> prompt.next
                == decoded_text(enc, parts[i + 1].subrange(0, context))
        }),
{
    let chunk = CHUNK_SPLIT_SIZE as nat;
    lemma_no_window_iff_no_token(tokens.len(), chunk);
    let parts = windows(tokens, chunk);
    if i > 0 {
        lemma_window_lengths(tokens, chunk, i - 1);
        let before = parts[i - 1];
        assert(context_tail(before, CONTEXT_SIZE as nat) == before.subrange(
            before.len() - CONTEXT_SIZE,
            before.len() as int,
        ));
    }
    if i + 1 < parts.len() {
        let after = parts[i + 1];
        if after.len() >= CONTEXT_SIZE {
            assert(context_head(after, CONTEXT_SIZE as nat) == after.subrange(
                0,
                CONTEXT_SIZE as int,
            ));
        }
    }
}

/// An empty text is refused before anything is asked: no summary is in the
/// making, so there is no request to send.
pub proof fn law_empty_input(model: Seq<char>, enc: Encoding)
    ensures
        summarized(model, enc, Seq::empty()) == Err::<SessionView, ErrorView>(
            ErrorView::EmptyInput,
        ),
{
}

} // verus!
