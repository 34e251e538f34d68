use typr::words::{words_of, EASY, HARD, MEDIUM};

fn strings(ws: Vec<Vec<char>>) -> Vec<String> {
    ws.into_iter().map(|w| w.into_iter().collect()).collect()
}

#[test]
fn words_of_splits_at_runs_of_spaces() {
    assert_eq!(strings(words_of("  a  bc d ")), vec!["a", "bc", "d"]);
    assert_eq!(strings(words_of("one")), vec!["one"]);
    assert!(words_of("").is_empty());
    assert!(words_of("   ").is_empty());
}

#[test]
fn lists_hold_plain_words() {
    for list in [EASY, MEDIUM, HARD] {
        let ws = strings(words_of(list));
        assert!(!ws.is_empty());
        assert!(ws.iter().all(|w| !w.is_empty() && !w.contains(' ')));
        assert_eq!(ws, list.split(' ').map(String::from).collect::<Vec<_>>());
    }
}
