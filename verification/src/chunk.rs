//! Windows over a token sequence, and the context slices at their ends.
//!
//! A sequence is cut from left to right into windows of `chunk` tokens; the last
//! window holds what is left and may be shorter. A context slice is the start or
//! the end of a window, at most `size` tokens long.

use vstd::prelude::*;
use vstd::slice::{slice_subrange, slice_to_vec};

use crate::error::{ErrorView, SummaryError};

verus! {

/// Number of tokens in a full window.
pub const CHUNK_SPLIT_SIZE: usize = 2000;

/// Number of tokens that a context slice holds at most.
pub const CONTEXT_SIZE: usize = 50;

/// Which end of a window a context slice is taken from.
#[derive(Clone, Copy, Debug, PartialEq, Eq, Structural)]
pub enum WindowEnd {
    /// The first tokens of the window.
    Head,
    /// The last tokens of the window.
    Tail,
}

/// Number of windows that `len` tokens fill: `len / chunk`, rounded up.
pub open spec fn window_count(len: nat, chunk: nat) -> nat {
    if chunk == 0 {
        0
    } else {
        ((len + chunk - 1) / (chunk as int)) as nat
    }
}

/// Where window `i` starts in a sequence of `len` tokens: at `i * chunk`, or at
/// the end of the sequence if that comes first. Window `i` ends where the next starts.
pub open spec fn window_start(len: nat, chunk: nat, i: int) -> int {
    if i * chunk <= len {
        i * chunk
    } else {
        len as int
    }
}

/// Window `i` of `tokens`.
pub open spec fn window_at(tokens: Seq<usize>, chunk: nat, i: int) -> Seq<usize> {
    tokens.subrange(
        window_start(tokens.len(), chunk, i),
        window_start(tokens.len(), chunk, i + 1),
    )
}

/// The windows of `tokens`, in order.
pub open spec fn windows(tokens: Seq<usize>, chunk: nat) -> Seq<Seq<usize>> {
    Seq::new(window_count(tokens.len(), chunk), |i: int| window_at(tokens, chunk, i))
}

/// The first `size` tokens of `window`, or all of it where it has fewer.
pub open spec fn context_head(window: Seq<usize>, size: nat) -> Seq<usize> {
    if size <= window.len() {
        window.take(size as int)
    } else {
        window
    }
}

/// The last `size` tokens of `window`, or all of it where it has fewer.
pub open spec fn context_tail(window: Seq<usize>, size: nat) -> Seq<usize> {
    if size <= window.len() {
        window.skip(window.len() - size)
    } else {
        window
    }
}

/// The context slice of `window` at `end`.
pub open spec fn context_of(window: Seq<usize>, end: WindowEnd, size: nat) -> Seq<usize> {
    match end {
        WindowEnd::Head => context_head(window, size),
        WindowEnd::Tail => context_tail(window, size),
    }
}

/// The token sequences that a vector of windows holds.
pub open spec fn window_views(windows: Seq<Vec<usize>>) -> Seq<Seq<usize>> {
    Seq::new(windows.len(), |i: int| windows[i]@)
}

/// `count` windows are what `len` tokens fill when the last of them ends at `len`.
pub proof fn lemma_window_count(len: nat, chunk: nat, count: int)
    requires
        chunk > 0,
        (count - 1) * chunk < len <= count * chunk,
    ensures
        window_count(len, chunk) == count,
{
    assert((len + chunk - 1) / (chunk as int) == count) by (nonlinear_arith)
        requires
            chunk > 0,
            (count - 1) * chunk < len <= count * chunk,
    ;
}

/// Window `i` starts at `i * chunk`, is not empty, and ends at the next multiple of
/// `chunk`, or at the end of the sequence where it is the last.
pub proof fn lemma_window_bounds(len: nat, chunk: nat, i: int)
    requires
        chunk > 0,
        0 <= i < window_count(len, chunk),
    ensures
        window_start(len, chunk, i) == i * chunk,
        0 <= i * chunk < window_start(len, chunk, i + 1) <= len,
        i + 1 < window_count(len, chunk) ==> window_start(len, chunk, i + 1) == i * chunk + chunk,
        i + 1 == window_count(len, chunk) ==> window_start(len, chunk, i + 1) == len,
        window_start(len, chunk, i + 1) <= i * chunk + chunk,
{
    let count = (len + chunk - 1) / (chunk as int);
    assert(count * chunk <= len + chunk - 1 < count * chunk + chunk) by (nonlinear_arith)
        requires
            chunk > 0,
            count == (len + chunk - 1) / (chunk as int),
    ;
    assert(0 <= i * chunk <= count * chunk - chunk) by (nonlinear_arith)
        requires
            chunk > 0,
            0 <= i < count,
    ;
    assert((i + 1) * chunk == i * chunk + chunk) by (nonlinear_arith);
    if i + 1 < count {
        assert(i * chunk + chunk <= count * chunk - chunk) by (nonlinear_arith)
            requires
                chunk > 0,
                0 <= i,
                i + 1 < count,
        ;
    } else {
        assert(i * chunk + chunk == count * chunk) by (nonlinear_arith)
            requires
                i + 1 == count,
        ;
    }
}

/// Every window but the last holds exactly `chunk` tokens; the last holds at
/// least one and at most `chunk`.
pub proof fn lemma_window_lengths(tokens: Seq<usize>, chunk: nat, i: int)
    requires
        chunk > 0,
        0 <= i < window_count(tokens.len(), chunk),
    ensures
        windows(tokens, chunk)[i] == window_at(tokens, chunk, i),
        1 <= window_at(tokens, chunk, i).len() <= chunk,
        i + 1 < window_count(tokens.len(), chunk) ==> window_at(tokens, chunk, i).len() == chunk,
        i + 1 == window_count(tokens.len(), chunk) ==> window_at(tokens, chunk, i).len()
            == tokens.len() - i * chunk,
{
    lemma_window_bounds(tokens.len(), chunk, i);
}

/// There is no window exactly where there is no token.
pub proof fn lemma_no_window_iff_no_token(len: nat, chunk: nat)
    requires
        chunk > 0,
    ensures
        window_count(len, chunk) == 0 <==> len == 0,
{
    if len == 0 {
        assert((0 - 1) * chunk < 0 <= 0 * chunk) by (nonlinear_arith)
            requires
                chunk > 0,
        ;
        lemma_window_count(len, chunk, 0);
    } else {
        assert((len + chunk - 1) / (chunk as int) >= 1) by (nonlinear_arith)
            requires
                chunk > 0,
                len > 0,
        ;
    }
}

/// The first `n` windows, laid end to end, are the tokens before window `n`.
proof fn lemma_prefix_cover(tokens: Seq<usize>, chunk: nat, n: int)
    requires
        chunk > 0,
        0 <= n <= window_count(tokens.len(), chunk),
    ensures
        0 <= window_start(tokens.len(), chunk, n) <= tokens.len(),
        windows(tokens, chunk).take(n).flatten() == tokens.take(
            window_start(tokens.len(), chunk, n),
        ),
    decreases n,
{
    let all = windows(tokens, chunk);
    if n == 0 {
        assert(0 * chunk == 0) by (nonlinear_arith);
        assert(all.take(0) == Seq::<Seq<usize>>::empty());
        assert(tokens.take(0) == Seq::<usize>::empty());
    } else {
        lemma_prefix_cover(tokens, chunk, n - 1);
        lemma_window_bounds(tokens.len(), chunk, n - 1);
        let before = all.take(n - 1);
        assert(all.take(n) == before.push(all[n - 1]));
        before.lemma_flatten_push(all[n - 1]);
        let start = window_start(tokens.len(), chunk, n - 1);
        let end = window_start(tokens.len(), chunk, n);
        assert(all[n - 1] == tokens.subrange(start, end));
        assert(tokens.take(start) + tokens.subrange(start, end) == tokens.take(end));
    }
}

/// The windows, laid end to end, are the tokens: nothing is left out and nothing
/// occurs twice.
pub proof fn lemma_windows_cover(tokens: Seq<usize>, chunk: nat)
    requires
        chunk > 0,
    ensures
        windows(tokens, chunk).flatten() == tokens,
{
    let all = windows(tokens, chunk);
    let count = window_count(tokens.len(), chunk) as int;
    lemma_prefix_cover(tokens, chunk, count);
    assert(all.take(count) == all);
    if count == 0 {
        lemma_no_window_iff_no_token(tokens.len(), chunk);
        assert(0 * chunk == 0) by (nonlinear_arith);
    } else {
        lemma_window_bounds(tokens.len(), chunk, count - 1);
    }
    assert(tokens.take(tokens.len() as int) == tokens);
}

/// Cuts `tokens` into windows of `chunk_size` tokens, the last one possibly
/// shorter. An empty sequence has no window and is refused.
pub fn partition(tokens: &[usize], chunk_size: usize) -> (result: Result<
    Vec<Vec<usize>>,
    SummaryError,
>)
    requires
        chunk_size > 0,
    ensures
        match result {
            Ok(parts) => {
                &&& tokens@.len() > 0
                &&& window_views(parts@) == windows(tokens@, chunk_size as nat)
            },
            Err(error) => tokens@.len() == 0 && error@ == ErrorView::NoTokens,
        },
{
    let len = tokens.len();
    if len == 0 {
        return Err(SummaryError::NoTokens);
    }
    let mut parts: Vec<Vec<usize>> = Vec::new();
    let mut start: usize = 0;
    assert(0 * chunk_size == 0) by (nonlinear_arith);
    while start < len
        invariant
            chunk_size > 0,
            len == tokens@.len(),
            start <= len,
            start == parts.len() * chunk_size || (start == len && (parts.len() - 1) * chunk_size
                < len <= parts.len() * chunk_size),
            forall|j: int|
                0 <= j < parts.len() ==> (#[trigger] parts[j])@ == window_at(
                    tokens@,
                    chunk_size as nat,
                    j,
                ),
        decreases len - start,
    {
        let ghost i = parts.len() as int;
        assert((i + 1) * chunk_size == i * chunk_size + chunk_size) by (nonlinear_arith);
        let end = if len - start > chunk_size {
            start + chunk_size
        } else {
            len
        };
        let part = slice_to_vec(slice_subrange(tokens, start, end));
        parts.push(part);
        start = end;
    }
    proof {
        let count = parts.len() as int;
        assert((count - 1) * chunk_size == count * chunk_size - chunk_size) by (nonlinear_arith);
        lemma_window_count(len as nat, chunk_size as nat, count);
        assert(window_views(parts@) =~= windows(tokens@, chunk_size as nat));
    }
    Ok(parts)
}

/// The context slice of `window` at `end`: its first or last `size` tokens, or
/// the whole window where it has fewer than `size`.
pub fn context_slice<'a>(window: &'a [usize], end: WindowEnd, size: usize) -> (slice: &'a [usize])
    ensures
        slice@ == context_of(window@, end, size as nat),
{
    let len = window.len();
    if size >= len {
        assert(window@.take(len as int) == window@);
        assert(window@.skip(0) == window@);
        window
    } else {
        match end {
            WindowEnd::Head => slice_subrange(window, 0, size),
            WindowEnd::Tail => slice_subrange(window, len - size, len),
        }
    }
}

} // verus!
