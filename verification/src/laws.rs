//! What holds of the typing state machine across calls.
use vstd::prelude::*;

use crate::game::{
    word_count, Mode, back_over, count_of, drawable, generated_text, join_words, named_list, word_start, words_reached,
    CharState, Game,
};
use crate::words::{lemma_split_plain, plain_word, split_words, EASY, HARD, MEDIUM};

verus! {

/// Counting the first `n` positions of `s + t`, for `n` within `s`, is
/// counting them in `s`.
proof fn lemma_count_prefix<T>(s: Seq<T>, t: Seq<T>, n: int, x: T)
    requires
        0 <= n <= s.len(),
    ensures
        count_of(s + t, n, x) == count_of(s, n, x),
    decreases n,
{
    if n > 0 {
        lemma_count_prefix(s, t, n - 1, x);
    }
}

/// Counting over `s + t` adds the counts over `s` and over `t`.
proof fn lemma_count_concat<T>(s: Seq<T>, t: Seq<T>, m: int, x: T)
    requires
        0 <= m <= t.len(),
    ensures
        count_of(s + t, s.len() + m, x) == count_of(s, s.len() as int, x) + count_of(t, m, x),
    decreases m,
{
    if m == 0 {
        lemma_count_prefix(s, t, s.len() as int, x);
    } else {
        lemma_count_concat(s, t, m - 1, x);
        assert((s + t)[s.len() + m - 1] == t[m - 1]);
    }
}

/// A sequence none of whose first `n` elements is `x` counts no `x`.
proof fn lemma_count_none<T>(s: Seq<T>, n: int, x: T)
    requires
        0 <= n <= s.len(),
        forall|i: int| 0 <= i < n ==> s[i] != x,
    ensures
        count_of(s, n, x) == 0,
    decreases n,
{
    if n > 0 {
        lemma_count_none(s, n - 1, x);
    }
}

/// Before a typed prefix, every position is correct or wrong.
proof fn lemma_typed_counts(s: Seq<CharState>, n: int)
    requires
        0 <= n <= s.len(),
        forall|i: int| 0 <= i < n ==> s[i] != CharState::Pending,
    ensures
        count_of(s, n, CharState::Correct) + count_of(s, n, CharState::Wrong) == n,
    decreases n,
{
    if n > 0 {
        lemma_typed_counts(s, n - 1);
    }
}

/// Every character the cursor has passed is either correct or an unfixed
/// error: the two counts add up to the cursor.
pub proof fn law_counts_cover_cursor(g: Game)
    requires
        g.wf(),
        g.typed_prefix(),
    ensures
        count_of(g.states@, g.cursor as int, CharState::Correct) + count_of(
            g.states@,
            g.cursor as int,
            CharState::Wrong,
        ) == g.cursor,
{
    assert forall|i: int| 0 <= i < g.cursor implies g.states@[i] != CharState::Pending by {
        assert(g.states@[i] == CharState::Pending <==> i >= g.cursor);
    }
    lemma_typed_counts(g.states@, g.cursor as int);
}

/// A backspace undoes the character typed just before it: the text, the
/// record of what was typed and the cursor are as they were.
pub proof fn law_backspace_undoes_char(g0: Game, c: char, g1: Game, g2: Game)
    requires
        g0.wf(),
        g0.typed_prefix(),
        g0.accepts_char(),
        g0.after_char(c, g1),
        g1.after_backspace(g2),
    ensures
        g2.chars@ == g0.chars@,
        g2.states@ == g0.states@,
        g2.cursor == g0.cursor,
        g2.mode == g0.mode,
        g2.difficulty@ == g0.difficulty@,
        g2.finished == g0.finished,
{
    assert(g0.states@[g0.cursor as int] == CharState::Pending);
    assert(g2.states@ =~= g0.states@);
}

/// A mistake fixed with a backspace costs nothing in the record: typing a
/// wrong character, deleting it and typing the right one leaves the test
/// as typing the right one at once does.
pub proof fn law_fixed_mistake_leaves_no_trace(
    g0: Game,
    wrong: char,
    g1: Game,
    g2: Game,
    g3: Game,
    direct: Game,
)
    requires
        g0.wf(),
        g0.typed_prefix(),
        g0.accepts_char(),
        g0.after_char(wrong, g1),
        g1.after_backspace(g2),
        g2.after_char(g0.chars@[g0.cursor as int], g3),
        g0.after_char(g0.chars@[g0.cursor as int], direct),
    ensures
        g3.chars@ == direct.chars@,
        g3.states@ == direct.states@,
        g3.cursor == direct.cursor,
{
    law_backspace_undoes_char(g0, wrong, g1, g2);
}

/// Once a test has ended, no key changes it.
pub proof fn law_finished_ignores_input(g: Game, c: char, p1: Game, p2: Game, p3: Game)
    requires
        g.finished,
        g.after_char(c, p1),
        g.after_backspace(p2),
        g.after_word_delete(p3),
    ensures
        g.same_as(p1),
        g.same_as(p2),
        g.same_as(p3),
{
}

/// Ending a test twice is ending it once: the second end changes nothing.
pub proof fn law_finish_once(g0: Game, g1: Game, g2: Game)
    requires
        g0.after_finish(g1),
        g1.after_finish(g2),
    ensures
        g1.finished,
        g1.same_as(g2),
{
}

/// Stepping back over one kind of character stops at the start of the text
/// or after a character of the other kind, and passes only characters of
/// that kind.
proof fn lemma_back_over(chars: Seq<char>, c: int, over_space: bool)
    requires
        0 <= c <= chars.len(),
    ensures
        0 <= back_over(chars, c, over_space) <= c,
        back_over(chars, c, over_space) == 0 || (chars[back_over(chars, c, over_space) - 1]
            == ' ') != over_space,
        forall|i: int|
            back_over(chars, c, over_space) <= i < c ==> (#[trigger] chars[i] == ' ') == over_space,
    decreases c,
{
    if c > 0 && (chars[c - 1] == ' ') == over_space {
        lemma_back_over(chars, c - 1, over_space);
    }
}

/// Deleting a word leaves the cursor at the start of a word: at the start
/// of the text or just after a space. What it passed is the word (no
/// spaces) and then the spaces that followed it.
pub proof fn law_word_delete_stops_at_word_start(chars: Seq<char>, c: int)
    requires
        0 <= c <= chars.len(),
    ensures
        0 <= word_start(chars, c) <= back_over(chars, c, true) <= c,
        word_start(chars, c) == 0 || chars[word_start(chars, c) - 1] == ' ',
        forall|i: int|
            word_start(chars, c) <= i < back_over(chars, c, true) ==> #[trigger] chars[i] != ' ',
        forall|i: int| back_over(chars, c, true) <= i < c ==> #[trigger] chars[i] == ' ',
{
    lemma_back_over(chars, c, true);
    lemma_back_over(chars, back_over(chars, c, true), false);
}

/// Joined words hold one space fewer than they are words, and do not end
/// with a space.
proof fn lemma_join_spaces(ws: Seq<Seq<char>>)
    requires
        ws.len() > 0,
        forall|i: int| 0 <= i < ws.len() ==> plain_word(#[trigger] ws[i]),
    ensures
        count_of(join_words(ws), join_words(ws).len() as int, ' ') == ws.len() - 1,
        join_words(ws).len() > 0,
        join_words(ws).last() != ' ',
    decreases ws.len(),
{
    let w = ws.last();
    assert(plain_word(ws[ws.len() - 1]));
    lemma_count_none(w, w.len() as int, ' ');
    if ws.len() > 1 {
        let rest = ws.drop_last();
        assert forall|i: int| 0 <= i < rest.len() implies plain_word(#[trigger] rest[i]) by {
            assert(rest[i] == ws[i]);
        }
        lemma_join_spaces(rest);
        let a = join_words(rest) + seq![' '];
        assert(count_of(seq![' '], 0, ' ') == 0);
        assert(count_of(seq![' '], 1, ' ') == 1);
        lemma_count_concat(join_words(rest), seq![' '], 1, ' ');
        assert(a.len() == join_words(rest).len() + 1);
        lemma_count_concat(a, w, w.len() as int, ' ');
        assert(join_words(ws) == a + w);
    }
}

/// Typing a generated text to its end reaches exactly as many words as it
/// was made of.
pub proof fn law_full_text_counts_its_words(ws: Seq<Seq<char>>)
    requires
        ws.len() > 0,
        forall|i: int| 0 <= i < ws.len() ==> plain_word(#[trigger] ws[i]),
    ensures
        words_reached(join_words(ws), join_words(ws).len() as int) == ws.len(),
{
    lemma_join_spaces(ws);
}

/// A drawn word is a word: not empty, and without spaces.
proof fn lemma_drawable_plain(difficulty: Seq<char>, w: Seq<char>)
    requires
        drawable(difficulty, w),
    ensures
        plain_word(w),
{
    lemma_split_plain(EASY@);
    lemma_split_plain(MEDIUM@);
    lemma_split_plain(HARD@);
    let list = match named_list(difficulty) {
        Some(l) => l,
        None => if split_words(EASY@).contains(w) {
            EASY@
        } else if split_words(MEDIUM@).contains(w) {
            MEDIUM@
        } else {
            HARD@
        },
    };
    let i = choose|i: int| 0 <= i < split_words(list).len() && split_words(list)[i] == w;
    assert(plain_word(split_words(list)[i]));
}

/// Typing a new test's text to its end reaches exactly as many words as
/// the test was made of.
pub proof fn law_new_text_counts_its_words(difficulty: Seq<char>, count: nat, text: Seq<char>)
    requires
        generated_text(difficulty, count, text),
        count > 0,
    ensures
        words_reached(text, text.len() as int) == count,
{
    let ws = choose|ws: Seq<Seq<char>>|
        {
            &&& ws.len() == count
            &&& forall|i: int| 0 <= i < ws.len() ==> drawable(difficulty, #[trigger] ws[i])
            &&& text == join_words(ws)
        };
    assert forall|i: int| 0 <= i < ws.len() implies plain_word(#[trigger] ws[i]) by {
        lemma_drawable_plain(difficulty, ws[i]);
    }
    law_full_text_counts_its_words(ws);
}

/// A key typed over the text is marked by whether it is the text's
/// character at the cursor: correct where it is, wrong where it is not,
/// whatever that character is (a space included).
pub proof fn law_key_marked_by_match(g: Game, c: char, post: Game)
    requires
        g.wf(),
        g.accepts_char(),
        g.after_char(c, post),
    ensures
        post.cursor == g.cursor + 1,
        c == g.chars@[g.cursor as int] ==> post.states@[g.cursor as int] == CharState::Correct,
        c != g.chars@[g.cursor as int] ==> post.states@[g.cursor as int] == CharState::Wrong,
        forall|i: int| 0 <= i < g.states@.len() && i != g.cursor ==> post.states@[i] == g.states@[i],
{
}

/// Changing a position at or after `n` leaves the count before `n` alone.
proof fn lemma_count_update<T>(s: Seq<T>, k: int, v: T, n: int, x: T)
    requires
        0 <= n <= k < s.len(),
    ensures
        count_of(s.update(k, v), n, x) == count_of(s, n, x),
    decreases n,
{
    if n > 0 {
        lemma_count_update(s, k, v, n - 1, x);
    }
}

/// Each accepted key adds one to exactly one count: to the correct
/// characters when it matches the text, to the unfixed errors when not.
pub proof fn law_key_counts_once(g: Game, c: char, post: Game)
    requires
        g.wf(),
        g.accepts_char(),
        g.after_char(c, post),
    ensures
        count_of(post.states@, post.cursor as int, CharState::Correct) == count_of(
            g.states@,
            g.cursor as int,
            CharState::Correct,
        ) + if c == g.chars@[g.cursor as int] {
            1int
        } else {
            0int
        },
        count_of(post.states@, post.cursor as int, CharState::Wrong) == count_of(
            g.states@,
            g.cursor as int,
            CharState::Wrong,
        ) + if c != g.chars@[g.cursor as int] {
            1int
        } else {
            0int
        },
{
    let k = g.cursor as int;
    let v = post.states@[k];
    assert(post.states@ == g.states@.update(k, v));
    lemma_count_update(g.states@, k, v, k, CharState::Correct);
    lemma_count_update(g.states@, k, v, k, CharState::Wrong);
}

/// A timed test is made of four words per second of its limit, and of a
/// hundred words where that is fewer; a word-count test, of its count.
pub proof fn law_word_count(mode: Mode)
    ensures
        mode matches Mode::Timed(s) ==> word_count(mode) == if 4 * s >= 100 {
            4 * s
        } else {
            100
        },
        mode matches Mode::Words(w) ==> word_count(mode) == w,
{
}

} // verus!
