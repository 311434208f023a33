use fry_bot::command::{operations, tokenize, Operation};
use fry_bot::pipeline::{fit_size, Action, Pipeline, Size, MAX_SIDE};
use fry_bot::request::{screen, triage, Outcome, Reply, Session, Triage, UsageError};

fn size(width: u64, height: u64) -> Size {
    Size { width, height }
}

#[test]
fn tokenize_splits_on_any_whitespace() {
    assert_eq!(tokenize("  @bot\tflip \n mirror  "), vec!["@bot", "flip", "mirror"]);
    assert!(tokenize("").is_empty());
    assert!(tokenize(" \t\u{3000} ").is_empty());
    assert_eq!(tokenize("a\u{a0}b"), vec!["a", "b"]);
}

#[test]
fn tokens_map_to_operations_exactly() {
    assert_eq!(Operation::from_token("flip"), Operation::Flip);
    assert_eq!(Operation::from_token("mirror"), Operation::Mirror);
    assert_eq!(Operation::from_token("color"), Operation::Quantize);
    assert_eq!(Operation::from_token("rotate"), Operation::Rotate);
    assert_eq!(Operation::from_token("fry"), Operation::Fry);
    assert_eq!(Operation::from_token("liquid"), Operation::LiquidRescale);
    assert_eq!(Operation::from_token("Flip"), Operation::Unknown);
    assert_eq!(Operation::from_token("flips"), Operation::Unknown);
    assert_eq!(Operation::from_token(""), Operation::Unknown);
}

#[test]
fn operations_keep_order_and_duplicates() {
    assert_eq!(
        operations("@bot fry flip nonsense fry liquid"),
        vec![Operation::Fry, Operation::Flip, Operation::Fry, Operation::LiquidRescale]
    );
}

#[test]
fn only_unknown_tokens_ask_for_nothing() {
    assert!(operations("@bot hello there FLIP").is_empty());
    let p = Pipeline::new(size(300, 200));
    assert!(p.actions(Operation::Unknown, size(300, 200)).is_empty());
}

#[test]
fn small_images_are_not_normalized() {
    let p = Pipeline::new(size(1024, 1024));
    assert_eq!(p.normalization(), None);
    assert_eq!(p.normalized_size(), size(1024, 1024));
    assert_eq!(Pipeline::new(size(1, 7)).normalization(), None);
}

#[test]
fn large_images_fit_the_bound() {
    assert_eq!(Pipeline::new(size(2000, 1000)).normalization(), Some(size(1024, 512)));
    assert_eq!(Pipeline::new(size(1000, 3000)).normalization(), Some(size(341, 1024)));
    assert_eq!(Pipeline::new(size(2048, 2048)).normalization(), Some(size(1024, 1024)));
    assert_eq!(Pipeline::new(size(1025, 1024)).normalization(), Some(size(1024, 1023)));
    assert_eq!(fit_size(size(5000, 1)), size(MAX_SIDE, 1));
    assert_eq!(fit_size(size(u64::MAX, u64::MAX - 1)), size(1024, 1023));
}

#[test]
fn flip_and_mirror_are_single_calls() {
    let p = Pipeline::new(size(10, 10));
    assert_eq!(p.actions(Operation::Flip, size(10, 10)), vec![Action::Flip]);
    assert_eq!(p.actions(Operation::Mirror, size(10, 10)), vec![Action::Flop]);
    assert_eq!(p.actions(Operation::Quantize, size(10, 10)), vec![Action::Quantize]);
    assert_eq!(p.actions(Operation::Fry, size(10, 10)), vec![Action::Sharpen, Action::Saturate]);
}

#[test]
fn liquid_returns_to_the_size_before_normalization() {
    let p = Pipeline::new(size(2000, 1000));
    let now = p.normalized_size();
    assert_eq!(
        p.actions(Operation::LiquidRescale, now),
        vec![Action::LiquidRescale(size(512, 256)), Action::LiquidRescale(size(2000, 1000))]
    );
    assert_eq!(
        p.actions(Operation::LiquidRescale, size(2000, 1000)),
        vec![Action::LiquidRescale(size(1000, 500)), Action::LiquidRescale(size(2000, 1000))]
    );
}

#[test]
fn flip_mirror_message_on_a_wide_png() {
    let ops = match triage(true, 1, "@bot flip mirror") {
        Triage::Convert(ops) => ops,
        other => panic!("unexpected {:?}", other),
    };
    assert_eq!(ops, vec![Operation::Flip, Operation::Mirror]);
    let p = Pipeline::new(size(2000, 1000));
    let now = p.normalized_size();
    assert_eq!(now, size(1024, 512));
    let mut all = Vec::new();
    for op in ops {
        all.extend(p.actions(op, now));
    }
    assert_eq!(all, vec![Action::Flip, Action::Flop]);
    let mut s = Session::new(1);
    assert_eq!(s.current(), Some(0));
    assert_eq!(s.record(Outcome::Converted), vec![Reply::Image(0), Reply::Elapsed]);
    assert_eq!(s.current(), None);
}

#[test]
fn rotate_message_asks_for_a_rotation() {
    assert_eq!(triage(true, 1, "@bot rotate"), Triage::Convert(vec![Operation::Rotate]));
    let p = Pipeline::new(size(64, 64));
    assert_eq!(p.actions(Operation::Rotate, size(64, 64)), vec![Action::Rotate]);
}

#[test]
fn bytes_that_are_not_an_image_end_the_request() {
    let text = b"hello, this is plain text".to_vec();
    let r = screen(&text);
    assert!(r.is_err());
    assert_eq!(r.unwrap_err().message(), "not an image");
    let png = vec![0x89, 0x50, 0x4e, 0x47, 0x0d, 0x0a, 0x1a, 0x0a, 0, 0, 0, 0x0d, 0x49, 0x48, 0x44, 0x52];
    assert!(screen(&png).is_ok());
    assert!(screen(&[]).is_err());
    let mut s = Session::new(3);
    assert_eq!(s.record(Outcome::Converted), vec![Reply::Image(0)]);
    assert_eq!(s.record(Outcome::NotImage), vec![Reply::NotImage]);
    assert_eq!(s.current(), None);
}

#[test]
fn message_without_attachments_gets_a_hint() {
    let r = triage(true, 0, "@bot flip");
    assert_eq!(r, Triage::Usage(UsageError::NoAttachment));
    assert_eq!(UsageError::NoAttachment.hint(), "what you want");
    let s = Session::new(0);
    assert_eq!(s.current(), None);
}

#[test]
fn message_without_parameters_gets_a_hint() {
    assert_eq!(triage(true, 2, "  @bot  "), Triage::Usage(UsageError::NoParameters));
    assert_eq!(UsageError::NoParameters.hint(), "what?");
    assert_eq!(triage(false, 2, "@bot flip"), Triage::Ignore);
}

#[test]
fn failures_are_reported_per_attachment() {
    let mut s = Session::new(3);
    assert_eq!(s.record(Outcome::FetchFailed), vec![Reply::Failed(0)]);
    assert_eq!(s.current(), Some(1));
    assert_eq!(s.record(Outcome::Converted), vec![Reply::Image(1)]);
    assert_eq!(s.record(Outcome::ConvertFailed), vec![Reply::Failed(2), Reply::Elapsed]);
    assert_eq!(s.current(), None);
}
