use pdf_summary::chunk::{context_slice, partition, WindowEnd, CHUNK_SPLIT_SIZE, CONTEXT_SIZE};
use pdf_summary::SummaryError;

fn numbered(len: usize) -> Vec<usize> {
    (0..len).collect()
}

#[test]
fn constants_have_their_values() {
    assert_eq!(CHUNK_SPLIT_SIZE, 2000);
    assert_eq!(CONTEXT_SIZE, 50);
}

#[test]
fn partition_of_4500_tokens_is_2000_2000_500() {
    let tokens = numbered(4500);
    let parts = partition(&tokens, 2000).unwrap();
    let sizes: Vec<usize> = parts.iter().map(|part| part.len()).collect();
    assert_eq!(sizes, vec![2000, 2000, 500]);
    assert_eq!(parts[0][0], 0);
    assert_eq!(parts[0][1999], 1999);
    assert_eq!(parts[1][0], 2000);
    assert_eq!(parts[2][0], 4000);
    assert_eq!(parts[2][499], 4499);
}

#[test]
fn partition_keeps_every_token_once_and_in_order() {
    let tokens = numbered(23);
    let parts = partition(&tokens, 5).unwrap();
    assert_eq!(parts.len(), 5);
    let joined: Vec<usize> = parts.iter().flatten().copied().collect();
    assert_eq!(joined, tokens);
    for part in &parts[..4] {
        assert_eq!(part.len(), 5);
    }
    assert_eq!(parts[4], vec![20, 21, 22]);
}

#[test]
fn partition_of_exact_multiple_has_no_short_window() {
    let tokens = numbered(12);
    let parts = partition(&tokens, 4).unwrap();
    assert_eq!(parts, vec![vec![0, 1, 2, 3], vec![4, 5, 6, 7], vec![8, 9, 10, 11]]);
}

#[test]
fn partition_of_few_tokens_is_one_window() {
    let tokens = vec![7, 8, 9];
    assert_eq!(partition(&tokens, 2000).unwrap(), vec![vec![7, 8, 9]]);
    assert_eq!(partition(&tokens, 3).unwrap(), vec![vec![7, 8, 9]]);
}

#[test]
fn partition_into_windows_of_one() {
    let tokens = vec![4, 5, 6];
    assert_eq!(partition(&tokens, 1).unwrap(), vec![vec![4], vec![5], vec![6]]);
}

#[test]
fn partition_of_nothing_is_refused() {
    let tokens: Vec<usize> = Vec::new();
    assert_eq!(partition(&tokens, 2000), Err(SummaryError::NoTokens));
}

#[test]
fn context_slice_takes_head_and_tail() {
    let window = numbered(10);
    assert_eq!(context_slice(&window, WindowEnd::Head, 3), &[0, 1, 2]);
    assert_eq!(context_slice(&window, WindowEnd::Tail, 3), &[7, 8, 9]);
}

#[test]
fn context_slice_of_full_window_has_fifty_tokens() {
    let window = numbered(2000);
    let head = context_slice(&window, WindowEnd::Head, CONTEXT_SIZE);
    let tail = context_slice(&window, WindowEnd::Tail, CONTEXT_SIZE);
    assert_eq!(head, &window[..50]);
    assert_eq!(tail, &window[1950..]);
}

#[test]
fn context_slice_of_short_window_is_the_window() {
    let window = vec![1, 2, 3];
    assert_eq!(context_slice(&window, WindowEnd::Head, 50), &[1, 2, 3]);
    assert_eq!(context_slice(&window, WindowEnd::Tail, 50), &[1, 2, 3]);
    assert_eq!(context_slice(&window, WindowEnd::Head, 3), &[1, 2, 3]);
    assert_eq!(context_slice(&window, WindowEnd::Tail, 3), &[1, 2, 3]);
}

#[test]
fn context_slice_of_size_zero_is_empty() {
    let window = vec![1, 2, 3];
    let empty: &[usize] = &[];
    assert_eq!(context_slice(&window, WindowEnd::Head, 0), empty);
    assert_eq!(context_slice(&window, WindowEnd::Tail, 0), empty);
    assert_eq!(context_slice(empty, WindowEnd::Tail, 5), empty);
}
