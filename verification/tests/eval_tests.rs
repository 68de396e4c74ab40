use textgen::eval::{build_prompt, pick_label, theme_chars, Harness, Label};
use textgen::errors::Error;

fn theme_of(stem: &str) -> String {
    let chars: Vec<char> = stem.chars().collect();
    theme_chars(&chars).into_iter().collect()
}

fn harness() -> Harness {
    Harness::new(Some(0), Some(1), Some(2), Some(3)).unwrap()
}

#[test]
fn four_equal_scores_select_label_a() {
    assert_eq!(pick_label(5, 5, 5, 5), Label::A);
    assert_eq!(pick_label(0, 0, 0, 0), Label::A);
    assert_eq!(pick_label(-3, -3, -3, -3), Label::A);
}

#[test]
fn strict_maximum_wins_each_position() {
    assert_eq!(pick_label(9, 1, 1, 1), Label::A);
    assert_eq!(pick_label(1, 9, 1, 1), Label::B);
    assert_eq!(pick_label(1, 1, 9, 1), Label::C);
    assert_eq!(pick_label(1, 1, 1, 9), Label::D);
}

#[test]
fn partial_ties_prefer_the_earlier_label() {
    assert_eq!(pick_label(9, 9, 1, 1), Label::A);
    assert_eq!(pick_label(1, 9, 9, 1), Label::B);
    assert_eq!(pick_label(1, 1, 9, 9), Label::C);
}

#[test]
fn missing_label_token_is_a_configuration_error() {
    assert!(matches!(Harness::new(Some(0), Some(1), None, Some(3)), Err(Error::Configuration)));
    assert!(matches!(Harness::new(None, None, None, None), Err(Error::Configuration)));
}

#[test]
fn record_missing_the_label_is_skipped_and_counted() {
    let mut h = harness();
    let row: Vec<String> =
        ["q", "a1", "b1", "c1", "d1"].iter().map(|s| s.to_string()).collect();
    let r = h.take_row(Ok(row));
    assert!(r.is_none());
    assert_eq!(h.skipped, 1);
    assert_eq!(h.scored, 0);
}

#[test]
fn unreadable_row_is_skipped_and_counted() {
    let mut h = harness();
    let r = h.take_row(Err(Error::MalformedRecord));
    assert!(r.is_none());
    assert_eq!(h.skipped, 1);
}

#[test]
fn whole_row_becomes_a_record_in_field_order() {
    let mut h = harness();
    let row: Vec<String> =
        ["q", "a1", "b1", "c1", "d1", "B"].iter().map(|s| s.to_string()).collect();
    let rec = h.take_row(Ok(row)).unwrap();
    assert_eq!(rec.question, "q");
    assert_eq!(rec.answer_a, "a1");
    assert_eq!(rec.answer_b, "b1");
    assert_eq!(rec.answer_c, "c1");
    assert_eq!(rec.answer_d, "d1");
    assert_eq!(rec.truth, "B");
    assert_eq!(h.skipped, 0);
}

#[test]
fn classify_counts_scored_records_and_ties_break_to_a() {
    let mut h = harness();
    let l = h.classify(&vec![5, 5, 5, 5]).unwrap();
    assert_eq!(l, Label::A);
    assert_eq!(h.scored, 1);
    let l2 = h.classify(&vec![1, 2, 8, 3]).unwrap();
    assert_eq!(l2, Label::C);
    assert_eq!(h.scored, 2);
}

#[test]
fn short_vocabulary_is_a_configuration_error() {
    let mut h = harness();
    let r = h.classify(&vec![1, 2]);
    assert!(matches!(r, Err(Error::Configuration)));
    assert_eq!(h.scored, 0);
}

#[test]
fn prompt_follows_the_fixed_template() {
    let s = build_prompt("math", "Q", "a1", "b1", "c1", "d1");
    assert_eq!(
        s,
        "The following are multiple choice questions (with answers) about math.\nQ\nA. a1\nB. b1\nC. c1\nD. d1\nAnswer:\n"
    );
}

#[test]
fn label_text_matches_the_vocabulary_entries() {
    assert_eq!(Label::A.as_str(), "A");
    assert_eq!(Label::B.as_str(), "B");
    assert_eq!(Label::C.as_str(), "C");
    assert_eq!(Label::D.as_str(), "D");
}

#[test]
fn csv_text_yields_records_and_counts_skips() {
    let mut h = harness();
    let data = b"q1,a,b,c,d,A\nq2,a,b,c,d,B\n";
    let recs = h.take_csv(data);
    assert_eq!(recs.len(), 2);
    assert_eq!(recs[0].question, "q1");
    assert_eq!(recs[1].truth, "B");
    assert_eq!(h.skipped, 0);
}

#[test]
fn theme_strips_the_suffix_and_spaces_underscores() {
    assert_eq!(theme_of("abstract_algebra_test"), "abstract algebra");
    assert_eq!(theme_of("world_religions"), "world religions");
    assert_eq!(theme_of("law"), "law");
    assert_eq!(theme_of("_test"), "");
    assert_eq!(theme_of("test"), "test");
    assert_eq!(theme_of(""), "");
}

#[test]
fn csv_unreadable_row_is_skipped_and_counted() {
    let mut h = harness();
    // The second row holds an extra field: the reader refuses it, and the
    // harness counts it without failing the run.
    let data = b"q1,a,b,c,d,A\nq2,a,b,c,d,B,extra\nq3,a,b,c,d,C\n";
    let recs = h.take_csv(data);
    assert_eq!(recs.len(), 2);
    assert_eq!(recs[0].question, "q1");
    assert_eq!(recs[1].question, "q3");
    assert_eq!(h.skipped, 1);
}

#[test]
fn csv_short_row_is_skipped_not_fatal() {
    let mut h = harness();
    // The second row is short of the label field: skipped, counted, and
    // the rest of the file is still read.
    let data = b"q1,a,b,c,d,A\nq2,a,b,c,d\nq3,a,b,c,d,D\n";
    let recs = h.take_csv(data);
    assert_eq!(recs.len(), 2);
    assert_eq!(recs[0].question, "q1");
    assert_eq!(recs[1].question, "q3");
    assert_eq!(h.skipped, 1);
}
