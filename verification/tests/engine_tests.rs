use textgen::engine::{Config, Generation, Step};
use textgen::errors::Error;

fn greedy_config() -> Config {
    Config {
        seed: 299792458,
        temperature: None,
        top_p: None,
        repeat_penalty: 1000,
        repeat_last_n: 64,
        sample_len: 3,
        eos_token: 7,
        stop_token: None,
    }
}

#[test]
fn empty_prompt_is_rejected_before_any_forward_pass() {
    let r = Generation::new(Vec::new(), greedy_config());
    assert!(matches!(r, Err(Error::EmptyPrompt)));
}

#[test]
fn priming_feeds_the_whole_prompt_then_single_tokens() {
    let mut g = Generation::new(vec![5, 6], greedy_config()).unwrap();
    assert_eq!(g.context_window(), Some(vec![5, 6]));
    let r = g.provide_scores(vec![0, 9, 0, 0, 0, 0, 0, 0]).unwrap();
    assert!(matches!(r, Step::Emit(1)));
    // After the first pass only the newest token is fed.
    assert_eq!(g.context_window(), Some(vec![1]));
}

#[test]
fn greedy_scenario_stops_at_eos_without_counting_it() {
    // Prompt of one token, budget 3, no penalty, greedy. The first pass
    // favours token 2; the second favours the end-of-sequence token. One
    // token is generated, and the run ends without emitting the stop.
    let mut g = Generation::new(vec![5], greedy_config()).unwrap();
    assert_eq!(g.context_window(), Some(vec![5]));
    let r1 = g.provide_scores(vec![0, 1, 9, 3, 0, 0, 0, 0]).unwrap();
    assert!(matches!(r1, Step::Emit(2)));
    assert_eq!(g.generated_count(), 1);
    assert_eq!(g.context_window(), Some(vec![2]));
    let r2 = g.provide_scores(vec![0, 0, 0, 0, 0, 0, 0, 9]).unwrap();
    assert!(matches!(r2, Step::Stop(7)));
    assert_eq!(g.generated_count(), 1);
    assert!(g.is_terminated());
    assert_eq!(g.context_window(), None);
}

#[test]
fn two_identical_greedy_runs_emit_the_same_tokens() {
    let score_rounds: Vec<Vec<i64>> = vec![
        vec![0, 4, 8, 2, 0, 0, 0, 0],
        vec![9, 0, 1, 0, 0, 0, 0, 0],
        vec![0, 0, 0, 6, 5, 0, 0, 0],
    ];
    let mut emitted_a: Vec<u32> = Vec::new();
    let mut emitted_b: Vec<u32> = Vec::new();
    for emitted in [&mut emitted_a, &mut emitted_b] {
        let mut g = Generation::new(vec![5], greedy_config()).unwrap();
        for scores in &score_rounds {
            match g.provide_scores(scores.clone()).unwrap() {
                Step::Emit(t) => emitted.push(t),
                Step::Stop(_) => break,
                Step::NeedWeights(_) => unreachable!(),
            }
        }
    }
    assert_eq!(emitted_a, vec![2, 0, 3]);
    assert_eq!(emitted_a, emitted_b);
}

#[test]
fn budget_bounds_the_generated_count() {
    let mut cfg = greedy_config();
    cfg.sample_len = 2;
    let mut g = Generation::new(vec![1], cfg).unwrap();
    let mut steps = 0;
    while !g.is_terminated() {
        let r = g.provide_scores(vec![0, 0, 9]).unwrap();
        assert!(matches!(r, Step::Emit(2)));
        steps += 1;
        assert!(steps <= 2);
    }
    assert_eq!(g.generated_count(), 2);
    assert!(g.generated_count() <= 2);
}

#[test]
fn zero_budget_run_is_born_terminated() {
    let mut cfg = greedy_config();
    cfg.sample_len = 0;
    let g = Generation::new(vec![1], cfg).unwrap();
    assert!(g.is_terminated());
    assert_eq!(g.context_window(), None);
}

#[test]
fn secondary_stop_token_ends_the_run() {
    let mut cfg = greedy_config();
    cfg.stop_token = Some(0);
    let mut g = Generation::new(vec![1], cfg).unwrap();
    let r = g.provide_scores(vec![9, 0, 0]).unwrap();
    assert!(matches!(r, Step::Stop(0)));
    assert!(g.is_terminated());
    assert_eq!(g.generated_count(), 0);
}

#[test]
fn empty_scores_fail_a_greedy_run() {
    let mut g = Generation::new(vec![1], greedy_config()).unwrap();
    let r = g.provide_scores(Vec::new());
    assert!(matches!(r, Err(Error::Sampling)));
    assert!(g.is_terminated());
}

#[test]
fn sampled_run_penalizes_then_asks_for_weights() {
    let mut cfg = greedy_config();
    cfg.temperature = Some(800);
    cfg.repeat_penalty = 2000;
    let mut g = Generation::new(vec![0], cfg).unwrap();
    // Token 0 is in the penalty window: its score halves.
    match g.provide_scores(vec![10, 20]).unwrap() {
        Step::NeedWeights(pen) => assert_eq!(pen, vec![5, 20]),
        _ => unreachable!(),
    }
    let r = g.provide_weights(vec![0, 9]).unwrap();
    assert!(matches!(r, Step::Emit(1)));
    assert_eq!(g.generated_count(), 1);
}

#[test]
fn two_identical_seeded_runs_sample_the_same_tokens() {
    let mut cfg = greedy_config();
    cfg.temperature = Some(900);
    cfg.top_p = Some(950);
    cfg.sample_len = 4;
    let weights: Vec<u64> = vec![3, 9, 1, 7, 2];
    let mut tokens_a: Vec<u32> = Vec::new();
    let mut tokens_b: Vec<u32> = Vec::new();
    for out in [&mut tokens_a, &mut tokens_b] {
        let mut g = Generation::new(vec![1], cfg).unwrap();
        while !g.is_terminated() {
            let scores: Vec<i64> = vec![1, 1, 1, 1, 1];
            match g.provide_scores(scores).unwrap() {
                Step::NeedWeights(_) => {}
                _ => unreachable!(),
            }
            match g.provide_weights(weights.clone()).unwrap() {
                Step::Emit(t) => out.push(t),
                Step::Stop(_) => break,
                Step::NeedWeights(_) => unreachable!(),
            }
        }
    }
    assert_eq!(tokens_a, tokens_b);
    assert_eq!(tokens_a.len(), 4);
}

#[test]
fn degenerate_weights_fail_a_sampled_run() {
    let mut cfg = greedy_config();
    cfg.temperature = Some(500);
    let mut g = Generation::new(vec![1], cfg).unwrap();
    match g.provide_scores(vec![1, 2]).unwrap() {
        Step::NeedWeights(_) => {}
        _ => unreachable!(),
    }
    let r = g.provide_weights(vec![0, 0]);
    assert!(matches!(r, Err(Error::Sampling)));
    assert!(g.is_terminated());
}

#[test]
fn abort_terminates_a_run() {
    let mut g = Generation::new(vec![1], greedy_config()).unwrap();
    g.abort();
    assert!(g.is_terminated());
    assert_eq!(g.generated_count(), 0);
}

#[test]
fn error_descriptions_name_the_stage() {
    assert_eq!(Error::EmptyPrompt.describe(), "empty prompts are not supported");
    assert_eq!(Error::Sampling.describe(), "the score vector was degenerate");
}
