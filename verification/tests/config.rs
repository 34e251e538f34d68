use typr::config::{
    difficulty_from_lowered, mode_tag, normalize_difficulty, results_path, select_mode,
};
use typr::game::Mode;
use typr::text::{chars_of, decimal_chars};

fn text(v: &[char]) -> String {
    v.iter().collect()
}

#[test]
fn difficulty_names_and_abbreviations() {
    assert_eq!(difficulty_from_lowered("easy"), "easy");
    assert_eq!(difficulty_from_lowered("e"), "easy");
    assert_eq!(difficulty_from_lowered("medium"), "medium");
    assert_eq!(difficulty_from_lowered("med"), "medium");
    assert_eq!(difficulty_from_lowered("m"), "medium");
    assert_eq!(difficulty_from_lowered("hard"), "hard");
    assert_eq!(difficulty_from_lowered("h"), "hard");
    assert_eq!(difficulty_from_lowered("mix"), "mix");
    assert_eq!(difficulty_from_lowered("insane"), "mix");
    assert_eq!(difficulty_from_lowered("EASY"), "mix");
}

#[test]
fn difficulty_in_any_case() {
    assert_eq!(normalize_difficulty("EASY"), "easy");
    assert_eq!(normalize_difficulty("Med"), "medium");
    assert_eq!(normalize_difficulty("H"), "hard");
    assert_eq!(normalize_difficulty("whatever"), "mix");
}

#[test]
fn mode_from_command_line() {
    assert_eq!(select_mode(None, None), Mode::Timed(30));
    assert_eq!(select_mode(Some(60), None), Mode::Timed(60));
    assert_eq!(select_mode(Some(45), None), Mode::Timed(45));
    assert_eq!(select_mode(Some(60), Some(25)), Mode::Words(25));
    assert_eq!(select_mode(None, Some(10)), Mode::Words(10));
}

#[test]
fn results_path_in_home() {
    assert_eq!(text(&results_path(Some("/home/ana"))), "/home/ana/typr_results.json");
    assert_eq!(text(&results_path(Some("/home/ana/"))), "/home/ana/typr_results.json");
    assert_eq!(text(&results_path(Some(""))), "typr_results.json");
    assert_eq!(text(&results_path(None)), "./typr_results.json");
}

#[test]
fn mode_tags() {
    assert_eq!(text(&mode_tag(Mode::Timed(30))), "timed_30s");
    assert_eq!(text(&mode_tag(Mode::Words(100))), "words_100");
    assert_eq!(text(&mode_tag(Mode::Words(0))), "words_0");
}

#[test]
fn decimal_spelling() {
    assert_eq!(text(&decimal_chars(0)), "0");
    assert_eq!(text(&decimal_chars(7)), "7");
    assert_eq!(text(&decimal_chars(120)), "120");
    assert_eq!(text(&decimal_chars(u64::MAX)), "18446744073709551615");
    assert_eq!(text(&chars_of("héllo")), "héllo");
}
