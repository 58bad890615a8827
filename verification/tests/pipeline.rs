use gpt_md_translator::pipeline::{Event, Pipeline, Request, Step};
use gpt_md_translator::response::{CallError, ChatResponse, Choice, FinishReason};
use gpt_md_translator::tokenizer::{CountingError, Tokenizer, MAX_TEXT_CHARS};
use gpt_md_translator::usage::{Usage, UsageTotal};

const PROMPT: &str = "Translate to Italian.";
const MODEL: &str = "gpt-4";

fn tokenizer() -> Tokenizer {
    Tokenizer::cl100k().expect("the encoder is built in")
}

fn words(word: &str, times: usize) -> String {
    vec![word; times].join(" ")
}

fn start(text: &str) -> (Pipeline, Request) {
    Pipeline::start_with(tokenizer(), String::from(text), String::from(PROMPT), String::from(MODEL))
        .ok()
        .expect("the document can be counted")
}

fn answer(text: &str, usage: Option<(u32, u32, u32)>) -> Event {
    Event::Response(ChatResponse {
        choices: vec![Choice {
            finish_reason: Some(FinishReason::Stop),
            content: Some(String::from(text)),
        }],
        usage: usage.map(|(prompt_tokens, completion_tokens, total_tokens)| Usage {
            prompt_tokens,
            completion_tokens,
            total_tokens,
        }),
    })
}

fn request(body: &str) -> Request {
    Request {
        system_prompt: String::from(PROMPT),
        body: String::from(body),
        model: String::from(MODEL),
    }
}

fn total(prompt_tokens: u64, completion_tokens: u64, total_tokens: u64) -> UsageTotal {
    UsageTotal { prompt_tokens, completion_tokens, total_tokens }
}

fn going(step: Step) -> (Pipeline, Request) {
    match step {
        Step::Call(pipeline, request) => (pipeline, request),
        Step::Done(text, _) => panic!("the run is complete with {:?}", text),
        Step::Abort(error) => panic!("the run has failed with {:?}", error),
    }
}

fn done(step: Step) -> (String, Option<UsageTotal>) {
    match step {
        Step::Call(_, request) => panic!("the run goes on with {:?}", request),
        Step::Done(text, usage) => (text, usage),
        Step::Abort(error) => panic!("the run has failed with {:?}", error),
    }
}

fn aborted(step: Step) -> CallError {
    match step {
        Step::Call(_, request) => panic!("the run goes on with {:?}", request),
        Step::Done(text, _) => panic!("the run is complete with {:?}", text),
        Step::Abort(error) => error,
    }
}

#[test]
fn small_document_takes_one_call() {
    let (pipeline, first) = start("Hello\n\nWorld");
    assert_eq!(first, request("Hello\n\nWorld"));
    assert!(!pipeline.is_chunked());
    let result = done(pipeline.step(answer("Ciao\n\nMondo", Some((10, 5, 15)))));
    assert_eq!(result, (String::from("Ciao\n\nMondo\n"), Some(total(10, 5, 15))));
}

#[test]
fn small_document_without_usage_returns_none() {
    let (pipeline, _) = start("Hello\n\nWorld");
    let result = done(pipeline.step(answer("Ciao\n\nMondo", None)));
    assert_eq!(result, (String::from("Ciao\n\nMondo\n"), None));
}

#[test]
fn document_at_the_limit_takes_one_call() {
    let counter = tokenizer();
    let prompt_tokens = counter.count(PROMPT).unwrap();
    let text = words("the", 4096 - 8 - prompt_tokens);
    assert_eq!(counter.count(&text), Ok(4096 - 8 - prompt_tokens));
    let (pipeline, first) = start(&text);
    assert_eq!(first, request(&text));
    assert!(!pipeline.is_chunked());
}

#[test]
fn document_over_the_limit_goes_out_in_chunks() {
    let counter = tokenizer();
    let prompt_tokens = counter.count(PROMPT).unwrap();
    let text = words("the", 4096 - 8 - prompt_tokens + 1);
    let (pipeline, first) = start(&text);
    assert_eq!(first, request(&format!("{}\n\n", text)));
    assert!(pipeline.is_chunked());
}

#[test]
fn two_calls_sum_their_usage() {
    let big = words("the", 3000);
    let small = words("of", 1200);
    let (pipeline, first) = start(&format!("{}\n\n{}", big, small));
    assert_eq!(first, request(&format!("{}\n\n", big)));
    let (pipeline, second) = going(pipeline.step(answer("il il il", Some((10, 5, 15)))));
    assert_eq!(second, request(&format!("{}\n\n", small)));
    let result = done(pipeline.step(answer("di di", Some((8, 4, 12)))));
    assert_eq!(result, (String::from("il il il\ndi di\n"), Some(total(18, 9, 27))));
}

#[test]
fn call_without_usage_leaves_the_sum_alone() {
    let paragraphs = [words("the", 3000), words("of", 3000), words("and", 3000)];
    let (pipeline, _) = start(&paragraphs.join("\n\n"));
    let (pipeline, _) = going(pipeline.step(answer("uno", Some((10, 5, 15)))));
    let (pipeline, _) = going(pipeline.step(answer("due", None)));
    let result = done(pipeline.step(answer("tre", Some((8, 4, 12)))));
    assert_eq!(result, (String::from("uno\ndue\ntre\n"), Some(total(18, 9, 27))));
}

#[test]
fn chunked_run_without_usage_returns_zeros() {
    let text = format!("{}\n\n{}", words("the", 3000), words("of", 1200));
    let (pipeline, _) = start(&text);
    let (pipeline, _) = going(pipeline.step(answer("uno", None)));
    let result = done(pipeline.step(answer("due", None)));
    assert_eq!(result, (String::from("uno\ndue\n"), Some(total(0, 0, 0))));
}

#[test]
fn translations_keep_the_order_of_the_chunks() {
    let paragraphs: Vec<String> =
        ["the", "of", "and", "to", "in"].iter().map(|word| words(word, 1500)).collect();
    let (mut pipeline, mut next) = start(&paragraphs.join("\n\n"));
    let mut sent = Vec::new();
    let result = loop {
        assert_eq!(next.system_prompt, PROMPT);
        assert_eq!(next.model, MODEL);
        let reply = format!("<{}>", sent.len());
        sent.push(next.body);
        match pipeline.step(answer(&reply, Some((1, 2, 3)))) {
            Step::Call(going, request) => {
                pipeline = going;
                next = request;
            }
            Step::Done(text, usage) => break (text, usage),
            Step::Abort(error) => panic!("{}", error.message()),
        }
    };
    let expected: Vec<String> = paragraphs.iter().map(|par| format!("{}\n\n", par)).collect();
    assert_eq!(sent, expected);
    assert_eq!(result, (String::from("<0>\n<1>\n<2>\n<3>\n<4>\n"), Some(total(5, 10, 15))));
}

#[test]
fn several_choices_make_one_translation() {
    let (pipeline, _) = start("Hello");
    let response = ChatResponse {
        choices: vec![
            Choice { finish_reason: Some(FinishReason::Stop), content: Some(String::from("Ciao")) },
            Choice { finish_reason: Some(FinishReason::Stop), content: Some(String::from("Salve")) },
        ],
        usage: None,
    };
    let result = done(pipeline.step(Event::Response(response)));
    assert_eq!(result, (String::from("Ciao\nSalve\n"), None));
}

#[test]
fn truncated_answer_aborts_the_run() {
    let text = format!("{}\n\n{}", words("the", 3000), words("of", 1200));
    let (pipeline, _) = start(&text);
    let truncated = Event::Response(ChatResponse {
        choices: vec![Choice {
            finish_reason: Some(FinishReason::Length),
            content: Some(String::from("il il")),
        }],
        usage: Some(Usage { prompt_tokens: 10, completion_tokens: 5, total_tokens: 15 }),
    });
    assert_eq!(aborted(pipeline.step(truncated)), CallError::UnacceptableFinishReason);
}

#[test]
fn empty_answer_aborts_the_run() {
    let (pipeline, _) = start("Hello");
    let empty = Event::Response(ChatResponse {
        choices: vec![Choice { finish_reason: Some(FinishReason::Stop), content: None }],
        usage: None,
    });
    assert_eq!(aborted(pipeline.step(empty)), CallError::EmptyResponse);
}

#[test]
fn failed_call_aborts_the_run() {
    let text = format!("{}\n\n{}", words("the", 3000), words("of", 1200));
    let (pipeline, _) = start(&text);
    let (pipeline, _) = going(pipeline.step(answer("uno", Some((1, 1, 2)))));
    let error = aborted(pipeline.step(Event::Failure(String::from("connection reset"))));
    assert_eq!(error, CallError::Transport(String::from("connection reset")));
}

#[test]
fn document_too_long_to_count_is_refused() {
    let text = "a".repeat(MAX_TEXT_CHARS - 1);
    let started =
        Pipeline::start_with(tokenizer(), text, String::from(PROMPT), String::from(MODEL));
    assert_eq!(started.err(), Some(CountingError::TextTooLong));
    let prompt = "a".repeat(MAX_TEXT_CHARS + 1);
    let started =
        Pipeline::start_with(tokenizer(), String::from("Hello"), prompt, String::from(MODEL));
    assert_eq!(started.err(), Some(CountingError::TextTooLong));
}

#[test]
fn start_sets_up_its_own_counter() {
    let started = Pipeline::start(String::from("Hello"), String::from(PROMPT), String::from(MODEL));
    let (pipeline, first) = started.ok().expect("the encoder is built in");
    assert_eq!(first, request("Hello"));
    assert!(!pipeline.is_chunked());
}
