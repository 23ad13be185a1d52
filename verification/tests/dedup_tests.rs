use std::collections::VecDeque;
use transecho::dedup::{is_duplicate, RecentTexts, DEDUP_WINDOW};

fn window(texts: &[&str]) -> VecDeque<String> {
    texts.iter().map(|t| t.to_string()).collect()
}

#[test]
fn exact_repeat_is_duplicate() {
    let recent = window(&["hello", "world"]);
    assert!(is_duplicate(&"world".to_string(), &recent));
    assert!(is_duplicate(&"hello".to_string(), &recent));
}

#[test]
fn concatenation_of_consecutive_texts_is_duplicate() {
    let recent = window(&["我们", "今天", "开会"]);
    assert!(is_duplicate(&"我们今天".to_string(), &recent));
    assert!(is_duplicate(&"今天开会".to_string(), &recent));
    assert!(is_duplicate(&"我们今天开会".to_string(), &recent));
}

#[test]
fn non_consecutive_or_reordered_texts_are_not_duplicates() {
    let recent = window(&["a", "b", "c"]);
    assert!(!is_duplicate(&"ac".to_string(), &recent));
    assert!(!is_duplicate(&"ba".to_string(), &recent));
    assert!(!is_duplicate(&"abcd".to_string(), &recent));
    assert!(!is_duplicate(&"ab ".to_string(), &recent));
}

#[test]
fn partial_text_is_not_duplicate() {
    let recent = window(&["hello world"]);
    assert!(!is_duplicate(&"hello".to_string(), &recent));
}

#[test]
fn empty_window_has_no_duplicates() {
    let recent = window(&[]);
    assert!(!is_duplicate(&"x".to_string(), &recent));
}

#[test]
fn accepted_text_is_refused_right_after() {
    let mut w = RecentTexts::new();
    let t = "Good morning.".to_string();
    assert!(w.accept(&t));
    assert!(!w.accept(&t));
    assert_eq!(w.len(), 1);
}

#[test]
fn window_keeps_the_last_fifteen() {
    let mut w = RecentTexts::new();
    for k in 0..(DEDUP_WINDOW + 1) {
        assert!(w.accept(&format!("sentence {}", k)));
    }
    assert_eq!(w.len(), DEDUP_WINDOW);
    assert_eq!(w.get(0), "sentence 1");
    assert_eq!(w.get(DEDUP_WINDOW - 1), "sentence 15");
    // the oldest left the window, so it is shown again
    assert!(w.accept(&"sentence 0".to_string()));
}

#[test]
fn pieces_shown_then_whole_is_refused() {
    let mut w = RecentTexts::new();
    assert!(w.accept(&"How are".to_string()));
    assert!(w.accept(&" you?".to_string()));
    assert!(!w.accept(&"How are you?".to_string()));
    assert_eq!(w.len(), 2);
}
