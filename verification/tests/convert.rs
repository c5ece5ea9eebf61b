use og_loc::convert::{TypstString, truncate_description, MAX_DESCRIPTION_LEN, MAX_OWNERS_SHOWN};

#[test]
fn escape_plain_text_unchanged() {
    let t = TypstString::escape("Typed RabbitMQ interfacing for async Rust");
    assert_eq!(t.inner().as_str(), "Typed RabbitMQ interfacing for async Rust");
}

#[test]
fn escape_specials() {
    assert_eq!(TypstString::escape("a#b").inner().as_str(), "a\\#b");
    assert_eq!(TypstString::escape("\\").inner().as_str(), "\\\\");
    assert_eq!(TypstString::escape("x^y$z").inner().as_str(), "x\\^y\\$z");
    assert_eq!(TypstString::escape("say \"hi\"").inner().as_str(), "say \\\"hi\\\"");
    assert_eq!(TypstString::escape("").inner().as_str(), "");
}

#[test]
fn escape_non_ascii_kept() {
    let t = TypstString::escape("caf\u{e9} #1");
    assert_eq!(t.inner().as_str(), "caf\u{e9} \\#1");
}

#[test]
fn truncation_constants() {
    assert_eq!(MAX_DESCRIPTION_LEN, 100);
    assert_eq!(MAX_OWNERS_SHOWN, 3);
}

#[test]
fn short_description_unchanged() {
    let d = truncate_description("Typed RabbitMQ interfacing for async Rust");
    assert_eq!(d, "Typed RabbitMQ interfacing for async Rust");
}

#[test]
fn exact_bound_description_unchanged() {
    let d = "a".repeat(100);
    assert_eq!(truncate_description(&d), d);
}

#[test]
fn long_description_cut_at_word_boundary() {
    // 99 characters, then a space at index 99, then more words: the cut
    // falls on the last space at or before index 100.
    let head = "x".repeat(99);
    let input = format!("{head} tail words here");
    let expect = format!("{head}...");
    assert_eq!(truncate_description(&input), expect);
}

#[test]
fn long_single_word_cut_hard() {
    let input = "y".repeat(150);
    let expect = format!("{}...", "y".repeat(100));
    assert_eq!(truncate_description(&input), expect);
}

#[test]
fn cut_picks_last_space_before_bound() {
    // Words of 30 characters separated by spaces: spaces at 30, 61, 92;
    // the bound at 100 falls inside the fourth word, so the cut is at 92.
    let w = "z".repeat(30);
    let input = format!("{w} {w} {w} {w} {w}");
    let expect = format!("{w} {w} {w}...");
    assert_eq!(truncate_description(&input), expect);
}
