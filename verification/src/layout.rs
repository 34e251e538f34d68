//! Where things go on the terminal: wrapping the text into lines and the
//! positions of the screens' parts.
use vstd::prelude::*;

use crate::game::{CharState, Mode};
use crate::text::{chars_of, decimal, decimal_chars, lemma_decimal_u64_len, same_text};

verus! {

// ── wrapping ───────────────────────────────────────────────

/// The length of the run of non-space characters that starts at `j`.
pub open spec fn word_len_from(chars: Seq<char>, j: int) -> nat
    decreases chars.len() - j,
{
    if 0 <= j < chars.len() && chars[j] != ' ' {
        1 + word_len_from(chars, j + 1)
    } else {
        0
    }
}

/// A line that starts at `s` breaks at the space `i` when the characters
/// from `s` to that space, and the word after it, would not fit in `width`.
/// The space that starts a line never breaks it.
pub open spec fn breaks_at(chars: Seq<char>, width: int, s: int, i: int) -> bool {
    &&& s < i < chars.len()
    &&& chars[i] == ' '
    &&& (i - s) + 1 + word_len_from(chars, i + 1) > width
}

/// `[s, e)` is a line that ends at its first break: the breaking space,
/// at `e - 1`, stays on the line.
pub open spec fn broken_line(chars: Seq<char>, width: int, s: int, e: int) -> bool {
    &&& 0 <= s
    &&& breaks_at(chars, width, s, e - 1)
    &&& forall|i: int| s < i < e - 1 ==> !#[trigger] breaks_at(chars, width, s, i)
}

/// `[s, chars.len())` is a line with no break: the rest of the text fits.
pub open spec fn final_line(chars: Seq<char>, width: int, s: int) -> bool {
    &&& 0 <= s < chars.len()
    &&& forall|i: int| s < i < chars.len() ==> !#[trigger] breaks_at(chars, width, s, i)
}

/// `lines` wrap `chars` at `width`: they follow one another from the first
/// character to the last, each ends at its first break, and only the last
/// may end without one.
pub open spec fn wraps(chars: Seq<char>, width: int, lines: Seq<(usize, usize)>) -> bool {
    if chars.len() == 0 {
        lines.len() == 0
    } else {
        &&& lines.len() > 0
        &&& lines[0].0 == 0
        &&& lines.last().1 == chars.len()
        &&& forall|k: int|
            0 <= k < lines.len() - 1 ==> #[trigger] lines[k].1 == lines[k + 1].0 && broken_line(
                chars,
                width,
                lines[k].0 as int,
                lines[k].1 as int,
            )
        &&& broken_line(chars, width, lines.last().0 as int, lines.last().1 as int) || final_line(
            chars,
            width,
            lines.last().0 as int,
        )
    }
}

proof fn lemma_word_len_bound(chars: Seq<char>, j: int)
    requires
        0 <= j <= chars.len(),
    ensures
        word_len_from(chars, j) <= chars.len() - j,
    decreases chars.len() - j,
{
    if j < chars.len() {
        lemma_word_len_bound(chars, j + 1);
    }
}

/// The length of the word that starts at `j`.
fn word_len(chars: &[char], j: usize) -> (n: usize)
    requires
        j <= chars@.len(),
    ensures
        n == word_len_from(chars@, j as int),
{
    let mut k = j;
    while k < chars.len() && chars[k] != ' '
        invariant
            j <= k <= chars@.len(),
            word_len_from(chars@, j as int) == (k - j) + word_len_from(chars@, k as int),
        decreases chars@.len() - k,
    {
        k += 1;
    }
    k - j
}

/// Wraps the text into lines of at most `max_width` characters where the
/// words allow it, breaking at spaces; a word longer than the width gets a
/// line of its own. Each line is `(start, end)`, its characters' indices;
/// the breaking space ends its line, so that the cursor on it is shown.
pub fn compute_lines(chars: &[char], max_width: usize) -> (lines: Vec<(usize, usize)>)
    ensures
        wraps(chars@, max_width as int, lines@),
{
    let mut lines: Vec<(usize, usize)> = Vec::new();
    if chars.len() == 0 {
        return lines;
    }
    let len = chars.len();
    let ghost cs = chars@;
    let ghost w = max_width as int;
    let mut line_start: usize = 0;
    let mut col: usize = 0;
    let mut i: usize = 0;
    while i < len
        invariant
            len == cs.len(),
            cs == chars@,
            w == max_width,
            len > 0,
            line_start <= i <= len,
            col == i - line_start,
            lines@.len() == 0 ==> line_start == 0,
            lines@.len() > 0 ==> lines@[0].0 == 0 && lines@.last().1 == line_start,
            forall|k: int|
                0 <= k < lines@.len() - 1 ==> #[trigger] lines@[k].1 == lines@[k + 1].0,
            forall|k: int|
                0 <= k < lines@.len() ==> broken_line(
                    cs,
                    w,
                    #[trigger] lines@[k].0 as int,
                    lines@[k].1 as int,
                ),
            forall|j: int| line_start < j < i ==> !#[trigger] breaks_at(cs, w, line_start as int, j),
        decreases len - i,
    {
        if chars[i] == ' ' && col > 0 {
            let next_word_len = word_len(chars, i + 1);
            proof {
                lemma_word_len_bound(cs, i + 1);
            }
            if col + 1 + next_word_len > max_width {
                let ghost old_lines = lines@;
                lines.push((line_start, i + 1));
                assert(broken_line(cs, w, line_start as int, i + 1));
                assert forall|k: int| 0 <= k < lines@.len() - 1 implies #[trigger] lines@[k].1
                    == lines@[k + 1].0 by {
                    if k < old_lines.len() - 1 {
                        assert(lines@[k] == old_lines[k]);
                        assert(lines@[k + 1] == old_lines[k + 1]);
                    }
                }
                assert forall|k: int| 0 <= k < lines@.len() implies broken_line(
                    cs,
                    w,
                    #[trigger] lines@[k].0 as int,
                    lines@[k].1 as int,
                ) by {
                    if k < old_lines.len() {
                        assert(lines@[k] == old_lines[k]);
                    }
                }
                line_start = i + 1;
                col = 0;
                i += 1;
                continue;
            }
        }
        col += 1;
        i += 1;
    }
    if line_start < len {
        let ghost old_lines = lines@;
        lines.push((line_start, len));
        assert(final_line(cs, w, line_start as int));
        assert forall|k: int| 0 <= k < lines@.len() - 1 implies #[trigger] lines@[k].1
            == lines@[k + 1].0 && broken_line(cs, w, lines@[k].0 as int, lines@[k].1 as int) by {
            assert(lines@[k] == old_lines[k]);
            if k < old_lines.len() - 1 {
                assert(lines@[k + 1] == old_lines[k + 1]);
            }
        }
    } else {
        assert(lines@.len() > 0);
        assert(broken_line(cs, w, lines@.last().0 as int, lines@.last().1 as int));
    }
    lines
}

/// The word after a space runs up to the next space or the end of the text.
proof fn lemma_word_runs_to(chars: Seq<char>, j: int, end: int)
    requires
        0 <= j <= end <= chars.len(),
        end == chars.len() || chars[end] == ' ',
        forall|i: int| j <= i < end ==> chars[i] != ' ',
    ensures
        word_len_from(chars, j) == end - j,
    decreases end - j,
{
    if j < end {
        lemma_word_runs_to(chars, j + 1, end);
    }
}

/// A stretch `[s, end)` that a line does not break in, and that is followed
/// by a space or the end of the text, fits the width once it holds a space
/// after its first character.
proof fn lemma_fits(chars: Seq<char>, width: int, s: int, end: int, j: int)
    requires
        0 <= s < j < end <= chars.len(),
        chars[j] == ' ',
        end == chars.len() || chars[end] == ' ',
        forall|i: int| s < i < end ==> !#[trigger] breaks_at(chars, width, s, i),
    ensures
        end - s <= width,
    decreases end - j,
{
    if exists|k: int| j < k < end && chars[k] == ' ' {
        let k = choose|k: int| j < k < end && chars[k] == ' ';
        lemma_fits(chars, width, s, end, k);
    } else {
        lemma_word_runs_to(chars, j + 1, end);
        assert(!breaks_at(chars, width, s, j));
    }
}

/// Every line fits the width, but for a line that is one word too long to
/// fit: where a line holds a space after its first character (other than
/// its breaking space), its characters before the breaking space number at
/// most `width`.
pub proof fn law_lines_fit(chars: Seq<char>, width: int, lines: Seq<(usize, usize)>, k: int)
    requires
        wraps(chars, width, lines),
        0 <= k < lines.len(),
    ensures
        broken_line(chars, width, lines[k].0 as int, lines[k].1 as int) ==> forall|j: int|
            lines[k].0 < j < lines[k].1 - 1 && chars[j] == ' ' ==> lines[k].1 - 1 - lines[k].0
                <= width,
        !broken_line(chars, width, lines[k].0 as int, lines[k].1 as int) ==> forall|j: int|
            lines[k].0 < j < lines[k].1 && chars[j] == ' ' ==> lines[k].1 - lines[k].0 <= width,
{
    let s = lines[k].0 as int;
    let e = lines[k].1 as int;
    if k < lines.len() - 1 {
        assert(lines[k].1 == lines[k + 1].0);
    }
    if broken_line(chars, width, s, e) {
        assert forall|j: int| s < j < e - 1 && chars[j] == ' ' implies e - 1 - s <= width by {
            lemma_fits(chars, width, s, e - 1, j);
        }
    } else {
        assert(k == lines.len() - 1);
        assert(final_line(chars, width, s));
        assert forall|j: int| s < j < e && chars[j] == ' ' implies e - s <= width by {
            lemma_fits(chars, width, s, e, j);
        }
    }
}

/// The lines from the `k`-th on start where the `k`-th starts and cover
/// everything from there to the end of the text.
proof fn lemma_lines_cover_from(chars: Seq<char>, width: int, lines: Seq<(usize, usize)>, k: int, c: int)
    requires
        wraps(chars, width, lines),
        chars.len() > 0,
        0 <= k < lines.len(),
        lines[k].0 <= c < chars.len(),
    ensures
        exists|j: int| k <= j < lines.len() && (#[trigger] lines[j]).0 <= c < lines[j].1,
    decreases lines.len() - k,
{
    if c >= lines[k].1 {
        assert(k < lines.len() - 1);
        assert(lines[k].1 == lines[k + 1].0);
        lemma_lines_cover_from(chars, width, lines, k + 1, c);
    }
}

/// Every character of the text is on some line, so the cursor on any of
/// them is shown.
pub proof fn law_lines_cover_text(chars: Seq<char>, width: int, lines: Seq<(usize, usize)>, c: int)
    requires
        wraps(chars, width, lines),
        0 <= c < chars.len(),
    ensures
        exists|k: int| 0 <= k < lines.len() && (#[trigger] lines[k]).0 <= c < lines[k].1,
{
    lemma_lines_cover_from(chars, width, lines, 0, c);
}

// ── placing ────────────────────────────────────────────────

/// The column at which text of `text_len` characters starts, centred in a
/// terminal `term_w` columns wide; at the left edge when it does not fit.
pub fn cx(text_len: usize, term_w: u16) -> (x: u16)
    ensures
        x == (if term_w >= text_len {
            (term_w - text_len) / 2
        } else {
            0
        }),
{
    let tw = term_w as usize;
    let room: usize = if tw >= text_len {
        tw - text_len
    } else {
        0
    };
    (room as u16) / 2
}

/// `cx` as arithmetic.
pub open spec fn centred(text_len: int, term_w: int) -> int {
    if term_w >= text_len {
        (term_w - text_len) / 2
    } else {
        0
    }
}

/// The row at which a block `content_h` rows high starts, centred in a
/// terminal `term_h` rows high; at the top when it does not fit.
pub fn centered_top(term_h: u16, content_h: usize) -> (y: u16)
    ensures
        y == centred(content_h as int, term_h as int),
{
    let th = term_h as usize;
    let room: usize = if th >= content_h {
        th - content_h
    } else {
        0
    };
    (room / 2) as u16
}

/// How a character of the text is drawn.
#[derive(Clone, Copy, PartialEq, Eq, Debug, Structural)]
pub enum CharLook {
    /// Typed wrong: marked whatever else holds.
    Wrong,
    /// Under the cursor.
    Cursor,
    /// Typed correctly.
    Typed,
    /// Not typed yet.
    Untyped,
}

/// How to draw a character in the given state, under the cursor or not.
pub fn char_look(state: CharState, is_cursor: bool) -> (look: CharLook)
    ensures
        look == match state {
            CharState::Wrong => CharLook::Wrong,
            CharState::Correct => if is_cursor {
                CharLook::Cursor
            } else {
                CharLook::Typed
            },
            CharState::Pending => if is_cursor {
                CharLook::Cursor
            } else {
                CharLook::Untyped
            },
        },
{
    match state {
        CharState::Wrong => CharLook::Wrong,
        _ if is_cursor => CharLook::Cursor,
        CharState::Correct => CharLook::Typed,
        CharState::Pending => CharLook::Untyped,
    }
}

/// The first line from the `k`-th on that holds the cursor; the last line
/// (or 0, with no lines) where none does.
pub open spec fn line_with(lines: Seq<(usize, usize)>, cursor: int, k: int) -> int
    decreases lines.len() - k,
{
    if k < 0 || k >= lines.len() {
        if lines.len() > 0 {
            lines.len() - 1
        } else {
            0
        }
    } else if lines[k].0 <= cursor < lines[k].1 {
        k
    } else {
        line_with(lines, cursor, k + 1)
    }
}

proof fn lemma_line_with_bound(lines: Seq<(usize, usize)>, cursor: int, k: int)
    requires
        lines.len() > 0,
        0 <= k,
    ensures
        0 <= line_with(lines, cursor, k) < lines.len(),
    decreases lines.len() - k,
{
    if k < lines.len() && !(lines[k].0 <= cursor < lines[k].1) {
        lemma_line_with_bound(lines, cursor, k + 1);
    }
}

/// The index of the line that holds the cursor: the first whose range
/// holds it, else the last line, else 0.
pub fn cursor_line(lines: &[(usize, usize)], cursor: usize) -> (r: usize)
    ensures
        r == line_with(lines@, cursor as int, 0),
{
    let mut k: usize = 0;
    while k < lines.len()
        invariant
            k <= lines@.len(),
            line_with(lines@, cursor as int, k as int) == line_with(lines@, cursor as int, 0),
        decreases lines@.len() - k,
    {
        let (s, e) = lines[k];
        if s <= cursor && cursor < e {
            return k;
        }
        k += 1;
    }
    if lines.len() > 0 {
        lines.len() - 1
    } else {
        0
    }
}

proof fn lemma_line_with_finds(lines: Seq<(usize, usize)>, cursor: int, k: int, j: int)
    requires
        0 <= k <= j < lines.len(),
        lines[j].0 <= cursor < lines[j].1,
    ensures
        lines[line_with(lines, cursor, k)].0 <= cursor < lines[line_with(lines, cursor, k)].1,
    decreases j - k,
{
    if !(lines[k].0 <= cursor < lines[k].1) {
        lemma_line_with_finds(lines, cursor, k + 1, j);
    }
}

/// The line the typing screen starts from holds the cursor, wherever the
/// cursor stands in the text: the cursor is always shown.
pub proof fn law_cursor_line_holds_cursor(chars: Seq<char>, width: int, lines: Seq<(usize, usize)>, cursor: int)
    requires
        wraps(chars, width, lines),
        0 <= cursor < chars.len(),
    ensures
        0 <= line_with(lines, cursor, 0) < lines.len(),
        lines[line_with(lines, cursor, 0)].0 <= cursor < lines[line_with(lines, cursor, 0)].1,
{
    law_lines_cover_text(chars, width, lines, cursor);
    let j = choose|j: int| 0 <= j < lines.len() && (#[trigger] lines[j]).0 <= cursor < lines[j].1;
    lemma_line_with_finds(lines, cursor, 0, j);
    lemma_line_with_bound(lines, cursor, 0);
}

/// Where the typing screen puts its parts.
pub struct GameScreen {
    /// The width the text is wrapped at.
    pub text_width: usize,
    /// The wrapped lines of the whole text.
    pub lines: Vec<(usize, usize)>,
    /// The first line shown: the cursor's.
    pub first_line: usize,
    /// One past the last line shown: three at most.
    pub end_line: usize,
    /// Rows the shown lines take, one empty row between two lines.
    pub text_rows: usize,
    /// The title's row.
    pub top: u16,
    /// The column the text starts at.
    pub text_x: u16,
    /// The row of the first line shown.
    pub text_y: u16,
    /// The row of the key hints.
    pub footer_y: u16,
}

/// The typing screen for a text with the cursor at `cursor`, on a terminal
/// `term_w` by `term_h`: the text wrapped at 90 columns (less on a narrow
/// terminal), three lines of it from the cursor's, double-spaced, and the
/// title, timer, text and hints stacked and centred.
pub fn game_screen(chars: &[char], cursor: usize, term_w: u16, term_h: u16) -> (g: GameScreen)
    requires
        chars@.len() > 0,
    ensures
        g.text_width == (if term_w >= 98 {
            90
        } else if term_w >= 8 {
            term_w - 8
        } else {
            0
        }),
        wraps(chars@, g.text_width as int, g.lines@),
        g.first_line == line_with(g.lines@, cursor as int, 0),
        g.end_line == (if g.first_line + 3 <= g.lines@.len() {
            g.first_line + 3
        } else {
            g.lines@.len() as int
        }),
        g.first_line < g.end_line,
        g.text_rows == 2 * (g.end_line - g.first_line) - 1,
        g.top == centred(g.text_rows + 9, term_h as int),
        g.text_x == centred(g.text_width as int, term_w as int),
        g.text_y == g.top + 6,
        g.footer_y == (if g.text_y + g.text_rows + 2 <= (if term_h >= 1 {
            term_h - 1
        } else {
            0
        }) {
            g.text_y + g.text_rows + 2
        } else if term_h >= 1 {
            term_h - 1
        } else {
            0
        }),
{
    let tw = term_w as usize;
    let narrow: usize = if tw >= 8 {
        tw - 8
    } else {
        0
    };
    let text_width: usize = if narrow < 90 {
        narrow
    } else {
        90
    };
    let lines = compute_lines(chars, text_width);
    let first_line = cursor_line(lines.as_slice(), cursor);
    proof {
        lemma_line_with_bound(lines@, cursor as int, 0);
    }
    let end_line = if lines.len() - first_line >= 3 {
        first_line + 3
    } else {
        lines.len()
    };
    let text_rows = (end_line - first_line) * 2 - 1;
    let top = centered_top(term_h, text_rows + 9);
    let text_x = cx(text_width, term_w);
    let text_y = top + 6;
    let last_row: u16 = if term_h >= 1 {
        term_h - 1
    } else {
        0
    };
    let below = text_y + (text_rows as u16) + 2;
    let footer_y = if below <= last_row {
        below
    } else {
        last_row
    };
    GameScreen { text_width, lines, first_line, end_line, text_rows, top, text_x, text_y, footer_y }
}

// ── the mode bar ───────────────────────────────────────────

/// One label of the mode bar.
pub struct BarItem {
    /// Its column.
    pub x: u16,
    /// Its text.
    pub label: Vec<char>,
    /// Whether it names the current setting.
    pub active: bool,
}

/// The time limits the bar offers.
pub open spec fn bar_times() -> Seq<u64> {
    seq![15u64, 30u64, 60u64, 120u64]
}

/// The difficulties the bar offers, as the game names them.
pub open spec fn bar_keys() -> Seq<Seq<char>> {
    seq!["easy"@, "medium"@, "hard"@, "mix"@]
}

/// The difficulties the bar offers, as it labels them.
pub open spec fn bar_labels() -> Seq<Seq<char>> {
    seq!["easy"@, "med"@, "hard"@, "mix"@]
}

/// Where each difficulty label starts, after the first.
pub open spec fn bar_offsets() -> Seq<int> {
    seq![0int, 6int, 11int, 17int]
}

/// The label of a word-count mode: the count and a `w`.
pub open spec fn words_label(w: usize) -> Seq<char> {
    decimal(w as nat).push('w')
}

/// The columns the word-count label takes with its spacing, if shown.
pub open spec fn words_width(mode: Mode) -> int {
    match mode {
        Mode::Words(w) => words_label(w).len() + 2int,
        Mode::Timed(_) => 0,
    }
}

/// The columns the whole bar takes: the time labels, the word-count label,
/// a gap of six, and the difficulty labels.
pub open spec fn bar_width(mode: Mode) -> int {
    15 + words_width(mode) + 6 + 20
}

/// The mode bar of the results screen on a terminal `term_w` wide: the
/// time limits, then the word count in a word-count test, then the
/// difficulties, centred as one block, each marked where it is the
/// test's setting.
pub fn mode_bar(term_w: u16, mode: Mode, difficulty: &str) -> (items: Vec<BarItem>)
    ensures
        ({
            let x0 = centred(bar_width(mode), term_w as int);
            let d0 = x0 + 15 + words_width(mode) + 6;
            let n = if mode is Words {
                9int
            } else {
                8int
            };
            &&& items@.len() == n
            &&& forall|i: int|
                0 <= i < 4 ==> {
                    &&& (#[trigger] items@[i]).x == x0 + 4 * i
                    &&& items@[i].label@ == decimal(bar_times()[i] as nat)
                    &&& items@[i].active == (mode == Mode::Timed(bar_times()[i]))
                }
            &&& mode is Words ==> {
                &&& items@[4].x == x0 + 17
                &&& items@[4].label@ == words_label(mode->Words_0)
                &&& items@[4].active
            }
            &&& forall|j: int|
                n - 4 <= j < n ==> {
                    &&& (#[trigger] items@[j]).x == d0 + bar_offsets()[j - (n - 4)]
                    &&& items@[j].label@ == bar_labels()[j - (n - 4)]
                    &&& items@[j].active == (difficulty@ == bar_keys()[j - (n - 4)])
                }
        }),
        items@[0].label@ == seq!['1', '5'] && items@[0].active == (mode == Mode::Timed(15)),
        items@[1].label@ == seq!['3', '0'] && items@[1].active == (mode == Mode::Timed(30)),
        items@[2].label@ == seq!['6', '0'] && items@[2].active == (mode == Mode::Timed(60)),
        items@[3].label@ == seq!['1', '2', '0'] && items@[3].active == (mode == Mode::Timed(120)),
        items@[items@.len() - 4].label@ == "easy"@,
        items@[items@.len() - 4].active == (difficulty@ == "easy"@),
        items@[items@.len() - 3].label@ == "med"@,
        items@[items@.len() - 3].active == (difficulty@ == "medium"@),
        items@[items@.len() - 2].label@ == "hard"@,
        items@[items@.len() - 2].active == (difficulty@ == "hard"@),
        items@[items@.len() - 1].label@ == "mix"@,
        items@[items@.len() - 1].active == (difficulty@ == "mix"@),
{
    proof {
        reveal_strlit("easy");
        reveal_strlit("med");
        reveal_strlit("hard");
        reveal_strlit("mix");
        reveal_with_fuel(decimal, 3);
    }
    let words: Option<Vec<char>> = match mode {
        Mode::Words(w) => {
            let mut label = decimal_chars(w as u64);
            proof {
                lemma_decimal_u64_len(w as u64);
            }
            label.push('w');
            Some(label)
        },
        Mode::Timed(_) => None,
    };
    let words_w: usize = match &words {
        Some(label) => label.len() + 2,
        None => 0,
    };
    let total_w: usize = 15 + words_w + 6 + 20;
    let x0 = cx(total_w, term_w);
    assert(x0 + total_w <= 0xffff);
    let mut items: Vec<BarItem> = Vec::new();
    let times: [u64; 4] = [15, 30, 60, 120];
    let mut i: usize = 0;
    while i < 4
        invariant
            i <= 4,
            items@.len() == i,
            x0 + total_w <= 0xffff,
            total_w >= 41,
            times@ == bar_times(),
            forall|j: int|
                0 <= j < i ==> {
                    &&& (#[trigger] items@[j]).x == x0 + 4 * j
                    &&& items@[j].label@ == decimal(bar_times()[j] as nat)
                    &&& items@[j].active == (mode == Mode::Timed(bar_times()[j]))
                },
        decreases 4 - i,
    {
        let secs = times[i];
        let active = match mode {
            Mode::Timed(s) => s == secs,
            Mode::Words(_) => false,
        };
        items.push(BarItem { x: x0 + 4 * (i as u16), label: decimal_chars(secs), active });
        i += 1;
    }
    match words {
        Some(label) => {
            items.push(BarItem { x: x0 + 17, label, active: true });
        },
        None => {},
    }
    let d0: u16 = x0 + 15 + (words_w as u16) + 6;
    let keys: [&str; 4] = ["easy", "medium", "hard", "mix"];
    let labels: [&str; 4] = ["easy", "med", "hard", "mix"];
    let offsets: [u16; 4] = [0, 6, 11, 17];
    let ghost n = items@.len();
    let ghost old_items = items@;
    let mut k: usize = 0;
    while k < 4
        invariant
            k <= 4,
            items@.len() == n + k,
            n == if mode is Words {
                5int
            } else {
                4int
            },
            d0 + 17 + 3 <= x0 + total_w,
            x0 + total_w <= 0xffff,
            forall|j: int| 0 <= j < 4 ==> (#[trigger] keys@[j])@ == bar_keys()[j],
            forall|j: int| 0 <= j < 4 ==> (#[trigger] labels@[j])@ == bar_labels()[j],
            forall|j: int| 0 <= j < 4 ==> #[trigger] offsets@[j] == bar_offsets()[j],
            forall|j: int|
                0 <= j < n ==> #[trigger] items@[j] == old_items[j],
            forall|j: int|
                n <= j < n + k ==> {
                    &&& (#[trigger] items@[j]).x == d0 + bar_offsets()[j - n]
                    &&& items@[j].label@ == bar_labels()[j - n]
                    &&& items@[j].active == (difficulty@ == bar_keys()[j - n])
                },
        decreases 4 - k,
    {
        let active = same_text(difficulty, keys[k]);
        items.push(BarItem { x: d0 + offsets[k], label: chars_of(labels[k]), active });
        k += 1;
    }
    proof {
        let m = items@.len() as int;
        assert(items@[m - 4].active == (difficulty@ == bar_keys()[0]));
        assert(items@[m - 3].active == (difficulty@ == bar_keys()[1]));
        assert(items@[m - 2].active == (difficulty@ == bar_keys()[2]));
        assert(items@[m - 1].active == (difficulty@ == bar_keys()[3]));
        assert(items@[m - 4].label@ == bar_labels()[0]);
        assert(items@[m - 3].label@ == bar_labels()[1]);
        assert(items@[m - 2].label@ == bar_labels()[2]);
        assert(items@[m - 1].label@ == bar_labels()[3]);
        assert(items@[0].label@ == decimal(15));
        assert(items@[1].label@ == decimal(30));
        assert(items@[2].label@ == decimal(60));
        assert(items@[3].label@ == decimal(120));
        reveal_with_fuel(decimal, 4);
        assert(decimal(15) =~= seq!['1', '5']);
        assert(decimal(30) =~= seq!['3', '0']);
        assert(decimal(60) =~= seq!['6', '0']);
        assert(decimal(120) =~= seq!['1', '2', '0']);
    }
    items
}

} // verus!
