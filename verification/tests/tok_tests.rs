use textgen::engine::{Config, Step};
use textgen::errors::Error;
use textgen::tok::{begin_text_run, harness_from_tokenizer, required_token};
use tokenizers::models::wordlevel::WordLevel;
use tokenizers::pre_tokenizers::whitespace::Whitespace;
use tokenizers::Tokenizer;

fn tiny_tokenizer() -> Tokenizer {
    let vocab = [
        ("A", 0u32),
        ("B", 1),
        ("C", 2),
        ("D", 3),
        ("Hello", 5),
        ("world", 6),
        ("<unk>", 9),
    ]
    .iter()
    .map(|(s, i)| (s.to_string(), *i))
    .collect();
    let model = WordLevel::builder()
        .vocab(vocab)
        .unk_token("<unk>".to_string())
        .build()
        .unwrap();
    let mut t = Tokenizer::new(model);
    t.with_pre_tokenizer(Some(Whitespace));
    t
}

fn config() -> Config {
    Config {
        seed: 1,
        temperature: None,
        top_p: None,
        repeat_penalty: 1000,
        repeat_last_n: 64,
        sample_len: 4,
        eos_token: 9,
        stop_token: None,
    }
}

#[test]
fn empty_text_is_rejected_before_any_forward_pass() {
    let t = tiny_tokenizer();
    let r = begin_text_run(&t, "", config());
    assert!(matches!(r, Err(Error::EmptyPrompt)));
}

#[test]
fn encoded_prompt_primes_the_run() {
    let t = tiny_tokenizer();
    let mut g = begin_text_run(&t, "Hello world", config()).unwrap();
    assert_eq!(g.context_window(), Some(vec![5, 6]));
    let r = g.provide_scores(vec![0, 8, 0, 0, 0, 0, 0, 0]).unwrap();
    assert!(matches!(r, Step::Emit(1)));
}

#[test]
fn required_tokens_come_from_the_vocabulary() {
    let t = tiny_tokenizer();
    assert_eq!(required_token(&t, "Hello"), Ok(5));
    assert!(matches!(required_token(&t, "<|endoftext|>"), Err(Error::Configuration)));
}

#[test]
fn harness_reads_the_four_labels() {
    let t = tiny_tokenizer();
    let h = harness_from_tokenizer(&t).unwrap();
    assert_eq!((h.label_a, h.label_b, h.label_c, h.label_d), (0, 1, 2, 3));
}
