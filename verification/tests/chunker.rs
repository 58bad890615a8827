use gpt_md_translator::chunking::{
    needs_chunking, within_budget, CHUNK_BUDGET, HARD_REQUEST_LIMIT, MESSAGE_OVERHEAD,
};
use gpt_md_translator::md_chunker::{is_chunkable, MDChunkable, MDChunker};
use gpt_md_translator::paragraphs::split_paragraphs;
use gpt_md_translator::tokenizer::{CountingError, Tokenizer, MAX_TEXT_CHARS};

fn tokenizer() -> Tokenizer {
    Tokenizer::cl100k().expect("the encoder is built in")
}

fn all_chunks(mut chunker: MDChunker) -> Vec<String> {
    let mut chunks = Vec::new();
    while let Some(chunk) = chunker.next() {
        chunks.push(chunk);
        assert!(chunks.len() <= 1_000_000, "the chunker does not come to an end");
    }
    assert_eq!(chunker.next(), None);
    chunks
}

fn words(word: &str, times: usize) -> String {
    let mut text = String::new();
    for i in 0..times {
        if i > 0 {
            text.push(' ');
        }
        text.push_str(word);
    }
    text
}

#[test]
fn split_at_blank_lines() {
    assert_eq!(split_paragraphs("Hello\n\nWorld"), vec!["Hello", "World"]);
    assert_eq!(split_paragraphs(""), vec![""]);
    assert_eq!(split_paragraphs("one"), vec!["one"]);
    assert_eq!(split_paragraphs("a\nb"), vec!["a\nb"]);
    assert_eq!(split_paragraphs("a\n\n"), vec!["a", ""]);
    assert_eq!(split_paragraphs("\n\na"), vec!["", "a"]);
    assert_eq!(split_paragraphs("a\n\n\nb"), vec!["a", "\nb"]);
    assert_eq!(split_paragraphs("a\n\n\n\nb"), vec!["a", "", "b"]);
    assert_eq!(split_paragraphs("a\n"), vec!["a\n"]);
    assert_eq!(split_paragraphs("\n"), vec!["\n"]);
    assert_eq!(split_paragraphs("\n\n\n"), vec!["", "\n"]);
    assert_eq!(split_paragraphs("è\n\n日本語\n\n"), vec!["è", "日本語", ""]);
}

#[test]
fn split_agrees_with_the_standard_library() {
    let texts = [
        "# Title\n\nFirst paragraph,\nstill the first.\n\n\n- item\n- item\n\n\n\nlast\n",
        "\n\n\n\n\n",
        "no break at all",
        "x\n\ny\n\nz",
    ];
    for text in texts {
        let expected: Vec<String> = text.split("\n\n").map(String::from).collect();
        assert_eq!(split_paragraphs(text), expected);
    }
}

#[test]
fn tokens_are_counted_by_the_encoder() {
    let tokenizer = tokenizer();
    assert_eq!(tokenizer.count(""), Ok(0));
    assert_eq!(tokenizer.count("hello world"), Ok(2));
    assert_eq!(tokenizer.count_within("hello world"), 2);
    assert_eq!(tokenizer.count(&words("the", 700)), Ok(700));
}

#[test]
fn text_beyond_the_limit_is_not_counted() {
    let tokenizer = tokenizer();
    let long = "a".repeat(MAX_TEXT_CHARS + 1);
    assert_eq!(tokenizer.count(&long), Err(CountingError::TextTooLong));
    assert!(!is_chunkable(&long));
    assert!(!is_chunkable(&"a".repeat(MAX_TEXT_CHARS - 1)));
    assert!(is_chunkable(&"a".repeat(MAX_TEXT_CHARS - 2)));
}

#[test]
fn long_runs_of_white_space_are_counted() {
    let tokenizer = tokenizer();
    let blank = " ".repeat(5_000);
    assert!(tokenizer.count(&blank).is_ok());
    let lines = "\n".repeat(5_000);
    assert!(tokenizer.count(&lines).is_ok());
    let text = words("the", MAX_TEXT_CHARS / 4);
    assert_eq!(tokenizer.count(&text), Ok(MAX_TEXT_CHARS / 4));
}

#[test]
fn budget_test_counts_both_overheads() {
    assert!(within_budget(10, 1000, 1029, 2048));
    assert!(!within_budget(10, 1000, 1030, 2048));
    assert!(within_budget(0, 0, 0, 9));
    assert!(!within_budget(0, 0, 0, 8));
    assert!(!within_budget(usize::MAX, usize::MAX, usize::MAX, usize::MAX));
    assert!(!within_budget(0, 0, 0, 0));
    assert_eq!(CHUNK_BUDGET, 4097 / 2);
    assert_eq!(CHUNK_BUDGET, 2048);
    assert_eq!(MESSAGE_OVERHEAD, 4);
}

#[test]
fn request_limit_counts_both_overheads() {
    assert_eq!(HARD_REQUEST_LIMIT, 4096);
    assert!(!needs_chunking(10, 4078));
    assert!(needs_chunking(10, 4079));
    assert!(!needs_chunking(0, 0));
    assert!(!needs_chunking(4088, 0));
    assert!(needs_chunking(4089, 0));
    assert!(needs_chunking(usize::MAX, usize::MAX));
}

#[test]
fn small_document_is_one_chunk() {
    let text = String::from("Hello\n\nWorld");
    let chunks = all_chunks(text.md_chunk(tokenizer(), 30));
    assert_eq!(chunks, vec!["Hello\n\nWorld\n\n"]);
}

#[test]
fn all_chunks_can_be_had_at_once() {
    let big = words("the", 3000);
    let text = format!("before\n\n{}\n\nafter\n\nend", big);
    let mut chunker = MDChunker::new(&text, tokenizer(), 10);
    assert_eq!(chunker.next(), Some(String::from("before\n\n")));
    let rest = chunker.into_chunks();
    assert_eq!(rest, vec![format!("{}\n\n", big), String::from("after\n\nend\n\n")]);
}

#[test]
fn empty_document_is_one_chunk_of_one_empty_paragraph() {
    let chunks = all_chunks(MDChunker::new(&String::new(), tokenizer(), 0));
    assert_eq!(chunks, vec!["\n\n"]);
}

#[test]
fn third_paragraph_goes_to_a_second_chunk() {
    let first = words("the", 700);
    let second = words("of", 700);
    let third = words("and", 700);
    let text = format!("{}\n\n{}\n\n{}", first, second, third);
    let chunks = all_chunks(text.md_chunk(tokenizer(), 10));
    assert_eq!(chunks, vec![format!("{}\n\n{}\n\n", first, second), format!("{}\n\n", third)]);
    let counter = tokenizer();
    for chunk in &chunks {
        let tokens = counter.count(chunk).unwrap();
        assert!(10 + tokens + MESSAGE_OVERHEAD < CHUNK_BUDGET);
    }
    assert_eq!(counter.count(&chunks[0]), Ok(1402));
    assert_eq!(counter.count(&chunks[1]), Ok(701));
}

#[test]
fn oversized_paragraph_is_a_chunk_of_its_own() {
    let text = words("the", 3000);
    let chunks = all_chunks(MDChunker::new(&text, tokenizer(), 10));
    assert_eq!(chunks, vec![format!("{}\n\n", text)]);
}

#[test]
fn oversized_paragraph_between_small_ones() {
    let big = words("the", 3000);
    let text = format!("before\n\n{}\n\nafter\n\nend", big);
    let chunks = all_chunks(MDChunker::new(&text, tokenizer(), 10));
    assert_eq!(chunks, vec![String::from("before\n\n"), format!("{}\n\n", big), String::from("after\n\nend\n\n")]);
}

#[test]
fn reserved_tokens_over_the_budget_give_one_paragraph_per_chunk() {
    let text = String::from("a\n\nb\n\nc");
    let chunks = all_chunks(MDChunker::new(&text, tokenizer(), 5000));
    assert_eq!(chunks, vec!["a\n\n", "b\n\n", "c\n\n"]);
    let chunks = all_chunks(MDChunker::with_budget(&text, tokenizer(), 0, 0));
    assert_eq!(chunks, vec!["a\n\n", "b\n\n", "c\n\n"]);
}

#[test]
fn chunks_follow_the_budget_test() {
    let text = String::from(
        "# Heading\n\nSome words that make a paragraph.\n\nAnother, rather longer paragraph, \
         with a few more words in it than the one before.\n\n- a list\n- of things\n\n\n\nThe end.\n",
    );
    let counter = tokenizer();
    for budget in [0usize, 12, 20, 27, 35, 60] {
        for reserved in [0usize, 11] {
            let chunks = all_chunks(MDChunker::with_budget(&text, tokenizer(), reserved, budget));
            let mut expected: Vec<String> = Vec::new();
            let mut held = String::new();
            for par in text.split("\n\n") {
                if !held.is_empty() {
                    let held_tokens = counter.count(&held).unwrap();
                    let next_tokens = counter.count(par).unwrap();
                    if !within_budget(reserved, held_tokens, next_tokens, budget) {
                        expected.push(held);
                        held = String::new();
                    }
                }
                held.push_str(par);
                held.push_str("\n\n");
            }
            expected.push(held);
            assert_eq!(chunks, expected);

            assert_eq!(chunks.concat(), format!("{}\n\n", text));
            assert!(chunks.iter().all(|chunk| !chunk.is_empty()));
            assert!(chunks.len() <= text.split("\n\n").count());
        }
    }
}
