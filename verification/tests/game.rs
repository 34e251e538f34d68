use typr::game::{results_key, CharState, Game, Key, Mode, Step};
use typr::words::{EASY, HARD, MEDIUM};

fn listed(list: &str, w: &str) -> bool {
    list.split(' ').any(|x| x == w)
}

fn game_of(text: &str) -> Game {
    Game::from_chars(Mode::Words(10), "easy", text.chars().collect())
}

fn typed(g: &mut Game, s: &str) {
    for c in s.chars() {
        g.handle_char(c);
    }
}

#[test]
fn from_chars_starts_untyped() {
    let g = game_of("ab cd");
    assert_eq!(g.chars, vec!['a', 'b', ' ', 'c', 'd']);
    assert_eq!(g.states, vec![CharState::Pending; 5]);
    assert_eq!(g.cursor, 0);
    assert!(!g.started);
    assert!(!g.finished);
    assert_eq!(g.difficulty, "easy");
    assert_eq!(g.mode, Mode::Words(10));
}

#[test]
fn handle_char_marks_correct_and_wrong() {
    let mut g = game_of("abc");
    g.handle_char('a');
    assert!(g.started);
    g.handle_char('x');
    assert_eq!(g.cursor, 2);
    assert_eq!(g.states, vec![CharState::Correct, CharState::Wrong, CharState::Pending]);
    assert_eq!(g.correct_chars(), 1);
    assert_eq!(g.unfixed_errors(), 1);
}

#[test]
fn handle_char_past_the_end_does_nothing() {
    let mut g = game_of("ab");
    typed(&mut g, "abz");
    assert_eq!(g.cursor, 2);
    assert_eq!(g.states, vec![CharState::Correct, CharState::Correct]);
    assert!(g.is_done());
}

#[test]
fn backspace_undoes_a_char() {
    let mut g = game_of("abc");
    g.handle_char('a');
    let before = g.states.clone();
    g.handle_char('q');
    g.handle_backspace();
    assert_eq!(g.states, before);
    assert_eq!(g.cursor, 1);
}

#[test]
fn backspace_at_start_does_nothing() {
    let mut g = game_of("abc");
    g.handle_backspace();
    assert_eq!(g.cursor, 0);
    assert!(!g.started);
}

#[test]
fn word_delete_goes_back_to_word_start() {
    let mut g = game_of("one two three");
    typed(&mut g, "one tw");
    assert_eq!(g.cursor, 6);
    g.handle_word_delete();
    assert_eq!(g.cursor, 4);
    assert_eq!(g.states[3], CharState::Correct);
    assert_eq!(g.states[4], CharState::Pending);
    assert_eq!(g.states[5], CharState::Pending);
}

#[test]
fn word_delete_skips_trailing_spaces_first() {
    let mut g = game_of("one  two");
    typed(&mut g, "one  ");
    assert_eq!(g.cursor, 5);
    g.handle_word_delete();
    assert_eq!(g.cursor, 0);
    assert!(g.states.iter().all(|s| *s == CharState::Pending));
}

#[test]
fn word_delete_at_start_does_nothing() {
    let mut g = game_of("one");
    g.handle_word_delete();
    assert_eq!(g.cursor, 0);
}

#[test]
fn finished_game_ignores_keys() {
    let mut g = game_of("abc");
    g.handle_char('a');
    assert!(g.finish());
    g.handle_char('b');
    g.handle_backspace();
    g.handle_word_delete();
    assert_eq!(g.cursor, 1);
    assert_eq!(g.states[0], CharState::Correct);
    assert!(g.is_done());
}

#[test]
fn finish_twice_ends_once() {
    let mut g = game_of("abc");
    assert!(g.finish());
    assert!(!g.finish());
    assert!(g.finished);
}

#[test]
fn time_expires_only_when_timed_and_started() {
    let mut g = Game::from_chars(Mode::Timed(30), "mix", "abc".chars().collect());
    assert_eq!(g.check_time_expired(100), None);
    assert!(!g.finished);
    g.handle_char('a');
    assert_eq!(g.check_time_expired(29), None);
    assert!(!g.finished);
    assert_eq!(g.check_time_expired(30), Some(30));
    assert!(g.finished);
    assert_eq!(g.check_time_expired(31), None);

    let mut w = Game::from_chars(Mode::Words(3), "mix", "abc".chars().collect());
    w.handle_char('a');
    assert_eq!(w.check_time_expired(1000), None);
    assert!(!w.finished);
}

#[test]
fn is_done_when_typed_to_the_end() {
    let mut g = game_of("ab");
    assert!(!g.is_done());
    typed(&mut g, "ab");
    assert!(g.is_done());
}

#[test]
fn counts_cover_the_cursor() {
    let mut g = game_of("hello world");
    typed(&mut g, "hxllo wo");
    assert_eq!(g.correct_chars() + g.unfixed_errors(), g.cursor);
    assert_eq!(g.correct_chars(), 7);
    assert_eq!(g.unfixed_errors(), 1);
}

#[test]
fn words_typed_counts_begun_words() {
    let mut g = game_of("one two three");
    assert_eq!(g.words_typed(), 0);
    typed(&mut g, "o");
    assert_eq!(g.words_typed(), 1);
    typed(&mut g, "ne ");
    assert_eq!(g.words_typed(), 1);
    typed(&mut g, "t");
    assert_eq!(g.words_typed(), 2);
    typed(&mut g, "wo three");
    assert_eq!(g.words_typed(), 3);
}

#[test]
fn new_words_mode_has_that_many_words() {
    let g = Game::new(Mode::Words(7), "hard");
    let text: String = g.chars.iter().collect();
    let words: Vec<&str> = text.split(' ').collect();
    assert_eq!(words.len(), 7);
    assert!(words.iter().all(|w| listed(HARD, w)));
    assert_eq!(g.states.len(), g.chars.len());
    assert_eq!(g.difficulty, "hard");
}

#[test]
fn new_timed_mode_has_four_words_a_second_at_least_a_hundred() {
    let g = Game::new(Mode::Timed(15), "easy");
    let text: String = g.chars.iter().collect();
    let words: Vec<&str> = text.split(' ').collect();
    assert_eq!(words.len(), 100);
    assert!(words.iter().all(|w| listed(EASY, w)));
    let g = Game::new(Mode::Timed(60), "medium");
    let text: String = g.chars.iter().collect();
    let words: Vec<&str> = text.split(' ').collect();
    assert_eq!(words.len(), 240);
    assert!(words.iter().all(|w| listed(MEDIUM, w)));
}

#[test]
fn new_mix_draws_from_all_lists() {
    let g = Game::new(Mode::Words(50), "mix");
    let text: String = g.chars.iter().collect();
    for w in text.split(' ') {
        assert!(listed(EASY, w) || listed(MEDIUM, w) || listed(HARD, w));
    }
}

#[test]
fn new_words_zero_is_empty() {
    let g = Game::new(Mode::Words(0), "easy");
    assert!(g.chars.is_empty());
    assert!(g.is_done());
}

#[test]
fn full_text_counts_its_words() {
    let g0 = Game::new(Mode::Words(12), "easy");
    let mut g = g0;
    let text: Vec<char> = g.chars.clone();
    for c in text {
        g.handle_char(c);
    }
    assert_eq!(g.words_typed(), 12);
    assert_eq!(g.correct_chars(), g.chars.len());
}

#[test]
fn keys_during_the_test() {
    let mut g = game_of("ab cd");
    assert_eq!(g.handle_key(Key::Char('a'), false), Step::Continue);
    assert_eq!(g.cursor, 1);
    assert_eq!(g.handle_key(Key::Char('x'), true), Step::Continue);
    assert_eq!(g.cursor, 2);
    assert_eq!(g.states[1], CharState::Wrong);
    assert_eq!(g.handle_key(Key::Backspace, false), Step::Continue);
    assert_eq!(g.cursor, 1);
    assert_eq!(g.handle_key(Key::Char('w'), true), Step::Continue);
    assert_eq!(g.cursor, 0);
    g.handle_key(Key::Char('a'), false);
    assert_eq!(g.handle_key(Key::Backspace, true), Step::Continue);
    assert_eq!(g.cursor, 0);
    assert_eq!(g.handle_key(Key::Other, false), Step::Continue);
    assert_eq!(g.handle_key(Key::Tab, false), Step::Restart);
    assert_eq!(g.handle_key(Key::Esc, false), Step::Quit);
    assert_eq!(g.handle_key(Key::Char('c'), true), Step::Quit);
    assert_eq!(g.cursor, 0);
}

#[test]
fn keys_on_the_results_screen() {
    assert_eq!(results_key(Key::Tab), Step::Restart);
    assert_eq!(results_key(Key::Esc), Step::Quit);
    assert_eq!(results_key(Key::Char('q')), Step::Quit);
}

#[test]
fn fixed_mistake_leaves_no_trace() {
    let mut fixed = game_of("cat");
    fixed.handle_char('c');
    fixed.handle_char('x');
    fixed.handle_backspace();
    fixed.handle_char('a');
    let mut direct = game_of("cat");
    direct.handle_char('c');
    direct.handle_char('a');
    assert_eq!(fixed.states, direct.states);
    assert_eq!(fixed.cursor, direct.cursor);
    assert_eq!(fixed.unfixed_errors(), 0);
    assert_eq!(fixed.correct_chars(), 2);
}

#[test]
fn word_delete_lands_after_a_space() {
    let mut g = game_of("ab cd  ef");
    typed(&mut g, "ab cd  e");
    g.handle_word_delete();
    assert_eq!(g.cursor, 7);
    g.handle_word_delete();
    assert_eq!(g.cursor, 3);
    assert_eq!(g.chars[g.cursor - 1], ' ');
    g.handle_word_delete();
    assert_eq!(g.cursor, 0);
}
