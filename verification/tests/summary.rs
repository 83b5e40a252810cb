use pdf_summary::prompt::{user_message, ChatRequest, Completion, Role, SYSTEM_PROMPT};
use pdf_summary::summary::{
    build_prompts, join_fragments, plan, plan_checked, start, Progress, Summarization,
    WindowPrompt,
};
use pdf_summary::tokenizer::{has_all_bytes, knows_all};
use pdf_summary::{ConfigError, OpenAIClient, SummaryError};

const SPECIAL: [(usize, &str); 5] = [
    (100257, "<|endoftext|>"),
    (100258, "<|fim_prefix|>"),
    (100259, "<|fim_middle|>"),
    (100260, "<|fim_suffix|>"),
    (100276, "<|endofprompt|>"),
];

fn encoding() -> tiktoken_rust::Encoding {
    tiktoken_rust::get_encoding("cl100k_base").unwrap()
}

fn client() -> OpenAIClient {
    OpenAIClient::builder()
        .with_api_key("k".to_string())
        .with_model("gpt-3.5-turbo")
        .with_max_token(4000)
        .with_encoding(encoding())
        .build()
        .unwrap()
}

/// A document of `len` tokens, each known to the encoding, with a pattern that
/// makes neighbouring stretches differ.
fn document(len: usize) -> Vec<usize> {
    (0..len).map(|i| SPECIAL[(i * i + i / 7) % 5].0).collect()
}

fn text_of(tokens: &[usize]) -> String {
    tokens
        .iter()
        .map(|token| SPECIAL.iter().find(|(id, _)| id == token).unwrap().1)
        .collect()
}

fn answer(text: &str) -> Completion {
    Completion::Choices(vec![text.to_string()])
}

fn prompt(previous: &str, current: &str, next: &str) -> WindowPrompt {
    WindowPrompt {
        previous: previous.to_string(),
        current: current.to_string(),
        next: next.to_string(),
    }
}

fn pending(progress: Progress) -> Summarization {
    match progress {
        Progress::Pending(session) => session,
        other => panic!("no window is pending: {:?}", other),
    }
}

fn user_content(request: &ChatRequest) -> &str {
    assert_eq!(request.messages.len(), 2);
    assert_eq!(request.messages[0].role, Role::System);
    assert_eq!(request.messages[0].content, SYSTEM_PROMPT);
    assert_eq!(request.messages[1].role, Role::User);
    &request.messages[1].content
}

#[test]
fn join_fragments_puts_one_newline_between_neighbours() {
    assert_eq!(join_fragments(&Vec::new()), "");
    assert_eq!(join_fragments(&vec!["one".to_string()]), "one");
    assert_eq!(join_fragments(&vec!["one".to_string(), "two".to_string()]), "one\ntwo");
    assert_eq!(
        join_fragments(&vec!["a".to_string(), "".to_string(), "c\n".to_string()]),
        "a\n\nc\n"
    );
}

#[test]
fn no_summary_without_a_window() {
    assert!(Summarization::new("m".to_string(), Vec::new()).is_none());
}

#[test]
fn single_window_is_asked_once_and_answered_verbatim() {
    let client = client();
    let tokens = document(120);
    let session = client.plan(&tokens).unwrap().unwrap();
    assert_eq!(session.window_count(), 1);
    assert_eq!(session.position(), 0);
    assert_eq!(session.prompt(), &prompt("", &text_of(&tokens), ""));
    let request = session.request();
    assert_eq!(request.model, "gpt-3.5-turbo");
    assert_eq!(user_content(&request), user_message("", &text_of(&tokens), ""));
    match session.advance(answer("  The summary,\nas it came.  ")) {
        Progress::Finished(summary) => assert_eq!(summary, "  The summary,\nas it came.  "),
        other => panic!("not finished: {:?}", other),
    }
}

#[test]
fn document_of_4500_tokens_is_asked_three_times() {
    let client = client();
    let tokens = document(4500);
    let mut session = client.plan(&tokens).unwrap().unwrap();
    assert_eq!(session.window_count(), 3);

    let mut calls = 0;
    let mut requests = Vec::new();
    let summary = loop {
        assert_eq!(session.position(), calls);
        requests.push(session.request());
        calls += 1;
        match session.advance(answer(&format!("part {}", calls))) {
            Progress::Pending(next) => session = next,
            Progress::Finished(summary) => break summary,
            Progress::Failed(error) => panic!("failed: {:?}", error),
        }
    };
    assert_eq!(calls, 3);
    assert_eq!(summary, "part 1\npart 2\npart 3");

    assert_eq!(
        user_content(&requests[0]),
        user_message("", &text_of(&tokens[..2000]), &text_of(&tokens[2000..2050]))
    );
    assert_eq!(
        user_content(&requests[1]),
        user_message(
            &text_of(&tokens[1950..2000]),
            &text_of(&tokens[2000..4000]),
            &text_of(&tokens[4000..4050])
        )
    );
    assert_eq!(
        user_content(&requests[2]),
        user_message(&text_of(&tokens[3950..4000]), &text_of(&tokens[4000..]), "")
    );
    assert!(user_content(&requests[2]).ends_with("<next>\n``````\n"));
}

#[test]
fn contexts_come_from_the_neighbouring_windows() {
    let enc = encoding();
    let tokens = document(4500);
    let windows =
        vec![tokens[..2000].to_vec(), tokens[2000..4000].to_vec(), tokens[4000..].to_vec()];
    let prompts = build_prompts(&enc, &windows, 50);
    assert_eq!(prompts.len(), 3);
    assert_eq!(prompts[0].previous, "");
    assert_eq!(prompts[0].current, text_of(&windows[0]));
    assert_eq!(prompts[0].next, text_of(&windows[1][..50]));
    assert_eq!(prompts[1].previous, text_of(&windows[0][1950..]));
    assert_eq!(prompts[1].current, text_of(&windows[1]));
    assert_eq!(prompts[1].next, text_of(&windows[2][..50]));
    assert_eq!(prompts[2].previous, text_of(&windows[1][1950..]));
    assert_eq!(prompts[2].current, text_of(&windows[2]));
    assert_eq!(prompts[2].next, "");
}

#[test]
fn short_last_window_gives_all_of_itself_as_context() {
    let client = client();
    let tokens = document(2010);
    let session = client.plan(&tokens).unwrap().unwrap();
    assert_eq!(session.window_count(), 2);
    assert_eq!(
        session.prompt(),
        &prompt("", &text_of(&tokens[..2000]), &text_of(&tokens[2000..]))
    );
    let session = pending(session.advance(answer("first")));
    assert_eq!(session.position(), 1);
    assert_eq!(
        session.prompt(),
        &prompt(&text_of(&tokens[1950..2000]), &text_of(&tokens[2000..]), "")
    );
}

#[test]
fn small_contexts_are_clamped_to_the_window() {
    let enc = encoding();
    let windows = vec![vec![100257, 100258], vec![100259], vec![100260, 100276, 100257]];
    let prompts = build_prompts(&enc, &windows, 2);
    assert_eq!(
        prompts,
        vec![
            prompt("", "<|endoftext|><|fim_prefix|>", "<|fim_middle|>"),
            prompt(
                "<|endoftext|><|fim_prefix|>",
                "<|fim_middle|>",
                "<|fim_suffix|><|endofprompt|>"
            ),
            prompt("<|fim_middle|>", "<|fim_suffix|><|endofprompt|><|endoftext|>", ""),
        ]
    );
    assert_eq!(build_prompts(&enc, &Vec::new(), 2), Vec::new());
}

#[test]
fn exact_multiple_of_the_window_size_has_no_extra_window() {
    let enc = encoding();
    let tokens = document(4000);
    assert!(knows_all(&enc, &tokens));
    let session = plan("m", &enc, &tokens).unwrap();
    assert_eq!(session.window_count(), 2);
    assert_eq!(
        session.prompt(),
        &prompt("", &text_of(&tokens[..2000]), &text_of(&tokens[2000..2050]))
    );
}

#[test]
fn plan_of_no_token_is_refused() {
    let result = plan("m", &encoding(), &[]);
    assert_eq!(result.err(), Some(SummaryError::NoTokens));
    assert_eq!(client().plan(&[]).unwrap().err(), Some(SummaryError::NoTokens));
}

#[test]
fn plan_of_unknown_tokens_is_not_made() {
    let enc = encoding();
    assert!(plan_checked("m", &enc, &[100257, 9_999_999]).is_none());
    assert!(client().plan(&[9_999_999]).is_none());
    let session = plan_checked("m", &enc, &[100257, 100276]).unwrap().unwrap();
    assert_eq!(session.prompt(), &prompt("", "<|endoftext|><|endofprompt|>", ""));
}

#[test]
fn empty_text_is_refused_before_anything_is_asked() {
    let result = client().summarization(String::new());
    assert_eq!(result.err(), Some(SummaryError::EmptyInput));
    assert_eq!(start("m", &encoding(), "").err(), Some(SummaryError::EmptyInput));
}

#[test]
fn text_is_planned_or_the_encoding_reported() {
    let client = client();
    let text = "A short document.".to_string();
    let result = client.summarization(text.clone());
    if has_all_bytes(client.encoding()) {
        let session = result.unwrap();
        assert_eq!(session.window_count(), 1);
        assert_eq!(session.prompt(), &prompt("", &text, ""));
    } else {
        assert_eq!(
            result.err(),
            Some(SummaryError::Configuration(ConfigError::IncompleteEncoding))
        );
    }
}

#[test]
fn answer_without_choices_ends_the_work_at_once() {
    let prompts = vec![prompt("", "w0", "w1"), prompt("w0", "w1", "w2"), prompt("w1", "w2", "")];
    let session = Summarization::new("m".to_string(), prompts).unwrap();
    let session = pending(session.advance(answer("first")));
    assert_eq!(session.position(), 1);
    match session.advance(Completion::Choices(Vec::new())) {
        Progress::Failed(error) => assert_eq!(error, SummaryError::NoSummaryProduced),
        other => panic!("not failed: {:?}", other),
    }
}

#[test]
fn first_answer_without_choices_fails_a_single_window() {
    let session = Summarization::new("m".to_string(), vec![prompt("", "w", "")]).unwrap();
    match session.advance(Completion::Choices(Vec::new())) {
        Progress::Failed(error) => assert_eq!(error, SummaryError::NoSummaryProduced),
        other => panic!("not failed: {:?}", other),
    }
}

#[test]
fn failed_request_ends_the_work_with_its_cause() {
    let prompts = vec![prompt("", "w0", "w1"), prompt("w0", "w1", "")];
    let session = Summarization::new("m".to_string(), prompts).unwrap();
    match session.advance(Completion::Failed("connection reset".to_string())) {
        Progress::Failed(error) => {
            assert_eq!(error, SummaryError::CompletionRequest("connection reset".to_string()));
            assert_eq!(error.message(), "openai chat failed: connection reset");
        }
        other => panic!("not failed: {:?}", other),
    }
}

#[test]
fn later_choices_are_ignored() {
    let session = Summarization::new("m".to_string(), vec![prompt("", "w", "")]).unwrap();
    let reply = Completion::Choices(vec!["kept".to_string(), "dropped".to_string()]);
    match session.advance(reply) {
        Progress::Finished(summary) => assert_eq!(summary, "kept"),
        other => panic!("not finished: {:?}", other),
    }
}

#[test]
fn requests_follow_the_prompts_in_order() {
    let prompts = vec![prompt("", "w0", "h1"), prompt("t0", "w1", "h2"), prompt("t1", "w2", "")];
    let mut session = Summarization::new("the-model".to_string(), prompts).unwrap();
    let expected = [
        user_message("", "w0", "h1"),
        user_message("t0", "w1", "h2"),
        user_message("t1", "w2", ""),
    ];
    for (index, content) in expected.iter().enumerate() {
        assert_eq!(session.position(), index);
        assert_eq!(session.window_count(), 3);
        let request = session.request();
        assert_eq!(request.model, "the-model");
        assert_eq!(user_content(&request), content);
        match session.advance(answer("x")) {
            Progress::Pending(next) => session = next,
            Progress::Finished(summary) => {
                assert_eq!(index, 2);
                assert_eq!(summary, "x\nx\nx");
                return;
            }
            Progress::Failed(error) => panic!("failed: {:?}", error),
        }
    }
    panic!("the summary was not finished");
}

#[test]
fn replay_of_all_answers_gives_the_summary() {
    let prompts = vec![prompt("", "w0", "w1"), prompt("w0", "w1", "")];
    let session = Summarization::new("m".to_string(), prompts).unwrap();
    match session.replay(vec![answer("alpha"), answer("beta"), answer("left aside")]) {
        Progress::Finished(summary) => assert_eq!(summary, "alpha\nbeta"),
        other => panic!("not finished: {:?}", other),
    }
}

#[test]
fn replay_of_too_few_answers_leaves_a_window_pending() {
    let prompts = vec![prompt("", "w0", "w1"), prompt("w0", "w1", "w2"), prompt("w1", "w2", "")];
    let session = Summarization::new("m".to_string(), prompts).unwrap();
    let session = pending(session.replay(vec![answer("alpha"), answer("beta")]));
    assert_eq!(session.position(), 2);
    assert_eq!(session.prompt(), &prompt("w1", "w2", ""));
    let session = pending(session.replay(Vec::new()));
    assert_eq!(session.position(), 2);
}

#[test]
fn replay_stops_at_the_first_failure() {
    let prompts = vec![prompt("", "w0", "w1"), prompt("w0", "w1", "w2"), prompt("w1", "w2", "")];
    let session = Summarization::new("m".to_string(), prompts).unwrap();
    let replies = vec![
        answer("alpha"),
        Completion::Choices(Vec::new()),
        Completion::Failed("never seen".to_string()),
    ];
    match session.replay(replies) {
        Progress::Failed(error) => assert_eq!(error, SummaryError::NoSummaryProduced),
        other => panic!("not failed: {:?}", other),
    }
}
