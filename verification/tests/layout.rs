use typr::game::{CharState, Mode};
use typr::layout::{
    centered_top, char_look, compute_lines, cursor_line, cx, game_screen, mode_bar, CharLook,
};

fn chars(s: &str) -> Vec<char> {
    s.chars().collect()
}

fn text(v: &[char]) -> String {
    v.iter().collect()
}

#[test]
fn compute_lines_empty() {
    assert!(compute_lines(&[], 10).is_empty());
}

#[test]
fn compute_lines_wraps_at_spaces() {
    let c = chars("aaa bbb ccc");
    assert_eq!(compute_lines(&c, 6), vec![(0, 4), (4, 8), (8, 11)]);
    assert_eq!(compute_lines(&c, 7), vec![(0, 8), (8, 11)]);
    assert_eq!(compute_lines(&c, 10), vec![(0, 8), (8, 11)]);
    assert_eq!(compute_lines(&c, 11), vec![(0, 11)]);
}

#[test]
fn compute_lines_keeps_long_word_whole() {
    let c = chars("ab cdefghij k");
    assert_eq!(compute_lines(&c, 4), vec![(0, 3), (3, 12), (12, 13)]);
}

#[test]
fn compute_lines_trailing_space_breaks() {
    let c = chars("abc ");
    assert_eq!(compute_lines(&c, 3), vec![(0, 4)]);
    let c = chars("ab ");
    assert_eq!(compute_lines(&c, 2), vec![(0, 3)]);
}

#[test]
fn lines_fit_unless_one_word() {
    let c = chars("the quick brown fox jumps over the lazy dog");
    let lines = compute_lines(&c, 10);
    assert_eq!(lines[0].0, 0);
    assert_eq!(lines.last().unwrap().1, c.len());
    for w in lines.windows(2) {
        assert_eq!(w[0].1, w[1].0);
    }
    for &(s, e) in &lines {
        let line = text(&c[s..e]);
        assert!(line.trim_end().len() <= 10, "{line:?}");
    }
}

#[test]
fn cx_centres() {
    assert_eq!(cx(4, 80), 38);
    assert_eq!(cx(5, 80), 37);
    assert_eq!(cx(100, 80), 0);
}

#[test]
fn centered_top_centres() {
    assert_eq!(centered_top(24, 18), 3);
    assert_eq!(centered_top(10, 18), 0);
}

#[test]
fn char_look_prefers_wrong() {
    assert_eq!(char_look(CharState::Wrong, true), CharLook::Wrong);
    assert_eq!(char_look(CharState::Pending, true), CharLook::Cursor);
    assert_eq!(char_look(CharState::Correct, true), CharLook::Cursor);
    assert_eq!(char_look(CharState::Correct, false), CharLook::Typed);
    assert_eq!(char_look(CharState::Pending, false), CharLook::Untyped);
}

#[test]
fn cursor_line_finds_its_line() {
    let lines = vec![(0, 4), (4, 8), (8, 11)];
    assert_eq!(cursor_line(&lines, 0), 0);
    assert_eq!(cursor_line(&lines, 5), 1);
    assert_eq!(cursor_line(&lines, 10), 2);
    assert_eq!(cursor_line(&lines, 11), 2);
    assert_eq!(cursor_line(&[], 3), 0);
}

#[test]
fn game_screen_layout() {
    let c = chars("aaa bbb ccc ddd eee");
    let g = game_screen(&c, 0, 15, 40);
    assert_eq!(g.text_width, 7);
    assert_eq!(g.lines, vec![(0, 8), (8, 16), (16, 19)]);
    assert_eq!(g.first_line, 0);
    assert_eq!(g.end_line, 3);
    assert_eq!(g.text_rows, 5);
    assert_eq!(g.top, 13);
    assert_eq!(g.text_x, 4);
    assert_eq!(g.text_y, 19);
    assert_eq!(g.footer_y, 26);
    let g = game_screen(&c, 17, 15, 10);
    assert_eq!(g.first_line, 2);
    assert_eq!(g.end_line, 3);
    assert_eq!(g.text_rows, 1);
    assert_eq!(g.top, 0);
    assert_eq!(g.footer_y, 9);
    let wide = game_screen(&c, 0, 200, 40);
    assert_eq!(wide.text_width, 90);
}

#[test]
fn mode_bar_timed() {
    let items = mode_bar(80, Mode::Timed(30), "medium");
    assert_eq!(items.len(), 8);
    let labels: Vec<String> = items.iter().map(|i| text(&i.label)).collect();
    assert_eq!(labels, vec!["15", "30", "60", "120", "easy", "med", "hard", "mix"]);
    let xs: Vec<u16> = items.iter().map(|i| i.x).collect();
    // 41 columns, centred in 80
    assert_eq!(xs, vec![19, 23, 27, 31, 40, 46, 51, 57]);
    let active: Vec<bool> = items.iter().map(|i| i.active).collect();
    assert_eq!(active, vec![false, true, false, false, false, true, false, false]);
}

#[test]
fn mode_bar_words() {
    let items = mode_bar(80, Mode::Words(25), "mix");
    assert_eq!(items.len(), 9);
    assert_eq!(text(&items[4].label), "25w");
    assert!(items[4].active);
    // 46 columns, centred in 80
    assert_eq!(items[0].x, 17);
    assert_eq!(items[4].x, 34);
    assert_eq!(items[5].x, 43);
    assert_eq!(items[8].x, 60);
    assert!(items[8].active);
    assert!(items[..4].iter().all(|i| !i.active));
}

#[test]
fn mode_bar_narrow_terminal() {
    let items = mode_bar(10, Mode::Timed(15), "easy");
    assert_eq!(items[0].x, 0);
    assert!(items[0].active);
    assert!(items[4].active);
    assert_eq!(items[7].x, 38);
}

#[test]
fn lines_cover_every_character() {
    let c = chars("a bb ccc dddd eeeee ffffff");
    for width in 0..30 {
        let lines = compute_lines(&c, width);
        for i in 0..c.len() {
            let k = cursor_line(&lines, i);
            assert!(lines[k].0 <= i && i < lines[k].1);
        }
    }
}
