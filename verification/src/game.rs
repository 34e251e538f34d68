use vstd::prelude::*;

use crate::rng::{choose_word, roll_percent, thread_rng};
use crate::text::{append_chars, same_text};
use crate::words::{list_words, split_words, EASY, HARD, MEDIUM};

verus! {

/// How a test ends: after a number of seconds, or after a number of words.
#[derive(Clone, Copy, PartialEq, Eq, Debug, Structural)]
pub enum Mode {
    Timed(u64),
    Words(usize),
}

/// What became of one character of the text.
#[derive(Clone, Copy, PartialEq, Eq, Debug, Structural)]
pub enum CharState {
    Pending,
    Correct,
    Wrong,
}

/// One typing test: the text, what was typed over it, and where the cursor is.
///
/// The clock is not kept here: `started` records that the first key was
/// accepted, and the caller measures time from that moment.
pub struct Game {
    pub chars: Vec<char>,
    pub states: Vec<CharState>,
    pub cursor: usize,
    pub started: bool,
    pub mode: Mode,
    pub difficulty: String,
    pub finished: bool,
}

// ── the text ────────────────────────────────────────────────

/// Words joined by single spaces, as `[&str]::join(" ")` does.
pub open spec fn join_words(ws: Seq<Seq<char>>) -> Seq<char>
    decreases ws.len(),
{
    if ws.len() == 0 {
        Seq::empty()
    } else if ws.len() == 1 {
        ws[0]
    } else {
        join_words(ws.drop_last()) + seq![' '] + ws.last()
    }
}

/// The list that the difficulty names, if it names one.
pub open spec fn named_list(difficulty: Seq<char>) -> Option<Seq<char>> {
    if difficulty == "easy"@ {
        Some(EASY@)
    } else if difficulty == "medium"@ {
        Some(MEDIUM@)
    } else if difficulty == "hard"@ {
        Some(HARD@)
    } else {
        None
    }
}

/// `w` may be drawn for the given difficulty: from its own list for
/// "easy", "medium" and "hard", and from any of the three otherwise.
pub open spec fn drawable(difficulty: Seq<char>, w: Seq<char>) -> bool {
    match named_list(difficulty) {
        Some(list) => split_words(list).contains(w),
        None => split_words(EASY@).contains(w) || split_words(MEDIUM@).contains(w) || split_words(
            HARD@,
        ).contains(w),
    }
}

/// `text` is `count` drawable words joined by single spaces.
pub open spec fn generated_text(difficulty: Seq<char>, count: nat, text: Seq<char>) -> bool {
    exists|ws: Seq<Seq<char>>|
        {
            &&& ws.len() == count
            &&& forall|i: int| 0 <= i < ws.len() ==> drawable(difficulty, #[trigger] ws[i])
            &&& text == join_words(ws)
        }
}

/// The number of words a test of this mode starts with: four per second,
/// and never fewer than a hundred, when timed.
pub open spec fn word_count(mode: Mode) -> nat {
    match mode {
        Mode::Timed(s) => if s * 4 < 100 {
            100
        } else {
            (s * 4) as nat
        },
        Mode::Words(w) => w as nat,
    }
}

/// A mode whose word count is computed without overflow.
pub open spec fn mode_fits(mode: Mode) -> bool {
    match mode {
        Mode::Timed(s) => s * 4 <= usize::MAX,
        Mode::Words(_) => true,
    }
}

/// Joining one more word onto a joined text.
proof fn lemma_join_push(ws: Seq<Seq<char>>, w: Seq<char>)
    ensures
        join_words(ws.push(w)) == if ws.len() == 0 {
            w
        } else {
            join_words(ws) + seq![' '] + w
        },
{
    assert(ws.push(w).drop_last() =~= ws);
}

/// The words of a list, chosen for the difficulty or by a roll.
fn pick_list<'a>(
    difficulty: &str,
    easy: &'a Vec<Vec<char>>,
    medium: &'a Vec<Vec<char>>,
    hard: &'a Vec<Vec<char>>,
    rng: &mut rand::rngs::ThreadRng,
) -> (pool: &'a Vec<Vec<char>>)
    requires
        easy@.map_values(|w: Vec<char>| w@) == split_words(EASY@),
        medium@.map_values(|w: Vec<char>| w@) == split_words(MEDIUM@),
        hard@.map_values(|w: Vec<char>| w@) == split_words(HARD@),
        easy@.len() > 0,
        medium@.len() > 0,
        hard@.len() > 0,
    ensures
        pool@.len() > 0,
        named_list(difficulty@) matches Some(list) ==> pool@.map_values(|w: Vec<char>| w@)
            == split_words(list),
        named_list(difficulty@) is None ==> pool == easy || pool == medium || pool == hard,
{
    if same_text(difficulty, "easy") {
        easy
    } else if same_text(difficulty, "medium") {
        medium
    } else if same_text(difficulty, "hard") {
        hard
    } else {
        let roll = roll_percent(rng);
        list_for_roll(roll, easy, medium, hard)
    }
}

/// The list a word of a mixed test comes from, given a roll of a whole
/// percentage: the first 40 of a hundred give the first list, the next 35
/// the second, and the last 25 the third.
pub fn list_for_roll<'a, T>(roll: u32, easy: &'a T, medium: &'a T, hard: &'a T) -> (list: &'a T)
    ensures
        roll < 40 ==> list == easy,
        40 <= roll < 75 ==> list == medium,
        75 <= roll ==> list == hard,
{
    if roll < 40 {
        easy
    } else if roll < 75 {
        medium
    } else {
        hard
    }
}

/// `count` words drawn at random for the difficulty, joined by single spaces.
fn generate_words(difficulty: &str, count: usize) -> (text: Vec<char>)
    ensures
        generated_text(difficulty@, count as nat, text@),
{
    let mut rng = thread_rng();
    let easy = list_words(EASY);
    let medium = list_words(MEDIUM);
    let hard = list_words(HARD);
    let mut text: Vec<char> = Vec::new();
    let ghost mut ws: Seq<Seq<char>> = Seq::empty();
    let mut k: usize = 0;
    while k < count
        invariant
            k <= count,
            ws.len() == k,
            forall|i: int| 0 <= i < ws.len() ==> drawable(difficulty@, #[trigger] ws[i]),
            text@ == join_words(ws),
            easy@.map_values(|w: Vec<char>| w@) == split_words(EASY@),
            medium@.map_values(|w: Vec<char>| w@) == split_words(MEDIUM@),
            hard@.map_values(|w: Vec<char>| w@) == split_words(HARD@),
            easy@.len() > 0,
            medium@.len() > 0,
            hard@.len() > 0,
        decreases count - k,
    {
        let pool = pick_list(difficulty, &easy, &medium, &hard, &mut rng);
        let word = choose_word(&mut rng, pool.as_slice());
        proof {
            let views = pool@.map_values(|w: Vec<char>| w@);
            let i = choose|i: int| 0 <= i < pool@.len() && word@ == pool@[i]@;
            assert(views[i] == word@);
            assert(views.contains(word@));
            lemma_join_push(ws, word@);
        }
        if k > 0 {
            text.push(' ');
        }
        append_chars(&mut text, word);
        proof {
            ws = ws.push(word@);
        }
        k += 1;
    }
    text
}

impl Game {
    /// A test over `chars`, nothing typed yet.
    pub fn from_chars(mode: Mode, difficulty: &str, chars: Vec<char>) -> (g: Game)
        ensures
            g.chars@ == chars@,
            g.states@ == Seq::new(chars@.len(), |i: int| CharState::Pending),
            g.wf(),
            g.typed_prefix(),
            g.cursor == 0,
            !g.started,
            g.mode == mode,
            g.difficulty@ == difficulty@,
            !g.finished,
    {
        let len = chars.len();
        let mut states: Vec<CharState> = Vec::new();
        let mut i: usize = 0;
        while i < len
            invariant
                i <= len,
                states@ == Seq::new(i as nat, |j: int| CharState::Pending),
            decreases len - i,
        {
            states.push(CharState::Pending);
            i += 1;
            assert(states@ =~= Seq::new(i as nat, |j: int| CharState::Pending));
        }
        Game {
            chars,
            states,
            cursor: 0,
            started: false,
            mode,
            difficulty: difficulty.to_string(),
            finished: false,
        }
    }

    /// A new test: the text is `word_count(mode)` words drawn at random for
    /// the difficulty.
    pub fn new(mode: Mode, difficulty: &str) -> (g: Game)
        requires
            mode_fits(mode),
        ensures
            generated_text(difficulty@, word_count(mode), g.chars@),
            match mode {
                Mode::Timed(s) => generated_text(
                    difficulty@,
                    if 4 * s >= 100 {
                        (4 * s) as nat
                    } else {
                        100nat
                    },
                    g.chars@,
                ),
                Mode::Words(w) => generated_text(difficulty@, w as nat, g.chars@),
            },
            g.states@ == Seq::new(g.chars@.len(), |i: int| CharState::Pending),
            g.wf(),
            g.typed_prefix(),
            g.cursor == 0,
            !g.started,
            g.mode == mode,
            g.difficulty@ == difficulty@,
            !g.finished,
    {
        let count: usize = match mode {
            Mode::Timed(s) => {
                let n = (s as usize) * 4;
                if n < 100 {
                    100
                } else {
                    n
                }
            },
            Mode::Words(w) => w,
        };
        let text = generate_words(difficulty, count);
        Game::from_chars(mode, difficulty, text)
    }
}

// ── typing ─────────────────────────────────────────────────

/// Where the cursor stops when it steps back over characters that are
/// spaces (`over_space`) or that are not: it moves left while the character
/// before it is of that kind.
pub open spec fn back_over(chars: Seq<char>, c: int, over_space: bool) -> int
    decreases c,
{
    if c > 0 && c <= chars.len() && (chars[c - 1] == ' ') == over_space {
        back_over(chars, c - 1, over_space)
    } else {
        c
    }
}

/// Where deleting a word from cursor `c` leaves the cursor: back over the
/// spaces before it, then back over the word before those.
pub open spec fn word_start(chars: Seq<char>, c: int) -> int {
    back_over(chars, back_over(chars, c, true), false)
}

/// The number of positions before `n` that hold `x`.
pub open spec fn count_of<T>(s: Seq<T>, n: int, x: T) -> nat
    decreases n,
{
    if n <= 0 {
        0
    } else {
        count_of(s, n - 1, x) + if s[n - 1] == x {
            1nat
        } else {
            0nat
        }
    }
}

/// The words the typist has reached with the cursor at `cursor`: one per
/// space passed, and one more for a word that is begun and not closed by a
/// space (or that ends the text).
pub open spec fn words_reached(chars: Seq<char>, cursor: int) -> nat {
    if cursor <= 0 {
        0
    } else if cursor >= chars.len() || chars[cursor - 1] != ' ' {
        count_of(chars, cursor, ' ') + 1
    } else {
        count_of(chars, cursor, ' ')
    }
}

impl Game {
    /// The text and the record of what was typed have one entry per
    /// character, and the cursor stands within them.
    pub open spec fn wf(&self) -> bool {
        &&& self.states@.len() == self.chars@.len()
        &&& self.cursor <= self.chars@.len()
    }

    /// Exactly the characters before the cursor have been typed.
    pub open spec fn typed_prefix(&self) -> bool {
        forall|i: int|
            0 <= i < self.states@.len() ==> (#[trigger] self.states@[i] == CharState::Pending
                <==> i >= self.cursor)
    }

    /// `post` keeps what input does not touch: the text, the mode, the
    /// difficulty and whether the test has finished.
    pub open spec fn same_test(&self, post: Game) -> bool {
        &&& post.chars@ == self.chars@
        &&& post.mode == self.mode
        &&& post.difficulty@ == self.difficulty@
        &&& post.finished == self.finished
    }

    /// `post` is this game, unchanged.
    pub open spec fn same_as(&self, post: Game) -> bool {
        &&& self.same_test(post)
        &&& post.states@ == self.states@
        &&& post.cursor == self.cursor
        &&& post.started == self.started
    }

    /// Whether a key press is taken at all: not after the end, and not
    /// past the last character.
    pub open spec fn accepts_char(&self) -> bool {
        !self.finished && self.cursor < self.chars@.len()
    }

    /// `post` is this game after the character `c` was typed.
    pub open spec fn after_char(&self, c: char, post: Game) -> bool {
        if self.accepts_char() {
            &&& self.same_test(post)
            &&& post.cursor == self.cursor + 1
            &&& post.started
            &&& post.states@ == self.states@.update(
                self.cursor as int,
                if c == self.chars@[self.cursor as int] {
                    CharState::Correct
                } else {
                    CharState::Wrong
                },
            )
        } else {
            self.same_as(post)
        }
    }

    /// `post` is this game after one backspace.
    pub open spec fn after_backspace(&self, post: Game) -> bool {
        if !self.finished && self.cursor > 0 {
            &&& self.same_test(post)
            &&& post.cursor == self.cursor - 1
            &&& post.started == self.started
            &&& post.states@ == self.states@.update(self.cursor - 1, CharState::Pending)
        } else {
            self.same_as(post)
        }
    }

    /// `post` is this game after deleting back to the start of a word.
    pub open spec fn after_word_delete(&self, post: Game) -> bool {
        if !self.finished && self.cursor > 0 {
            &&& self.same_test(post)
            &&& post.cursor == word_start(self.chars@, self.cursor as int)
            &&& post.started == self.started
            &&& post.states@.len() == self.states@.len()
            &&& forall|i: int|
                0 <= i < self.states@.len() ==> #[trigger] post.states@[i] == if post.cursor <= i
                    < self.cursor {
                    CharState::Pending
                } else {
                    self.states@[i]
                }
        } else {
            self.same_as(post)
        }
    }

    /// `post` is this game after the test was ended.
    pub open spec fn after_finish(&self, post: Game) -> bool {
        &&& post.chars@ == self.chars@
        &&& post.mode == self.mode
        &&& post.difficulty@ == self.difficulty@
        &&& post.states@ == self.states@
        &&& post.cursor == self.cursor
        &&& post.started == self.started
        &&& post.finished
    }

    /// Types the character `c` over the one at the cursor: it is marked
    /// correct if it matches and wrong if not, and the cursor moves on.
    /// The first accepted key starts the test. After the end, or past the
    /// last character, nothing happens.
    pub fn handle_char(&mut self, c: char)
        requires
            old(self).wf(),
        ensures
            final(self).wf(),
            old(self).after_char(c, *final(self)),
            old(self).typed_prefix() ==> final(self).typed_prefix(),
            old(self).accepts_char() && c == old(self).chars@[old(self).cursor as int]
                ==> final(self).states@[old(self).cursor as int] == CharState::Correct,
            old(self).accepts_char() && c != old(self).chars@[old(self).cursor as int]
                ==> final(self).states@[old(self).cursor as int] == CharState::Wrong,
    {
        if self.finished || self.cursor >= self.chars.len() {
            return;
        }
        if !self.started {
            self.started = true;
        }
        let cur = self.cursor;
        if c == self.chars[cur] {
            self.states.set(cur, CharState::Correct);
        } else {
            self.states.set(cur, CharState::Wrong);
        }
        self.cursor = cur + 1;
    }

    /// Steps the cursor back one character and forgets what was typed
    /// there. Nothing happens at the start of the text or after the end.
    pub fn handle_backspace(&mut self)
        requires
            old(self).wf(),
        ensures
            final(self).wf(),
            old(self).after_backspace(*final(self)),
            old(self).typed_prefix() ==> final(self).typed_prefix(),
    {
        if self.finished || self.cursor == 0 {
            return;
        }
        let cur = self.cursor - 1;
        self.cursor = cur;
        self.states.set(cur, CharState::Pending);
    }

    /// Deletes back to the start of the word before the cursor: first the
    /// spaces just before it, then the word before those. Nothing happens
    /// at the start of the text or after the end.
    pub fn handle_word_delete(&mut self)
        requires
            old(self).wf(),
        ensures
            final(self).wf(),
            old(self).after_word_delete(*final(self)),
            old(self).typed_prefix() ==> final(self).typed_prefix(),
    {
        if self.finished || self.cursor == 0 {
            return;
        }
        let ghost c0 = self.cursor as int;
        let ghost s0 = self.states@;
        let ghost chars = self.chars@;
        let ghost g0 = *self;
        while self.cursor > 0 && self.chars[self.cursor - 1] == ' '
            invariant
                self.wf(),
                self.chars@ == chars,
                g0.chars@ == chars,
                g0.states@ == s0,
                g0.cursor == c0,
                self.mode == g0.mode,
                self.difficulty@ == g0.difficulty@,
                self.finished == g0.finished,
                !g0.finished,
                self.started == g0.started,
                self.states@.len() == s0.len(),
                c0 <= chars.len(),
                self.cursor <= c0,
                back_over(chars, self.cursor as int, true) == back_over(chars, c0, true),
                forall|i: int|
                    0 <= i < s0.len() ==> #[trigger] self.states@[i] == if self.cursor <= i < c0 {
                        CharState::Pending
                    } else {
                        s0[i]
                    },
            decreases self.cursor,
        {
            let cur = self.cursor - 1;
            self.cursor = cur;
            self.states.set(cur, CharState::Pending);
        }
        let ghost mid = self.cursor as int;
        assert(back_over(chars, mid, true) == mid);
        while self.cursor > 0 && self.chars[self.cursor - 1] != ' '
            invariant
                self.wf(),
                self.chars@ == chars,
                g0.chars@ == chars,
                g0.states@ == s0,
                g0.cursor == c0,
                self.mode == g0.mode,
                self.difficulty@ == g0.difficulty@,
                self.finished == g0.finished,
                !g0.finished,
                self.started == g0.started,
                self.states@.len() == s0.len(),
                c0 <= chars.len(),
                self.cursor <= c0,
                back_over(chars, self.cursor as int, false) == word_start(chars, c0),
                forall|i: int|
                    0 <= i < s0.len() ==> #[trigger] self.states@[i] == if self.cursor <= i < c0 {
                        CharState::Pending
                    } else {
                        s0[i]
                    },
            decreases self.cursor,
        {
            let cur = self.cursor - 1;
            self.cursor = cur;
            self.states.set(cur, CharState::Pending);
        }
        assert(back_over(chars, self.cursor as int, false) == self.cursor as int);
    }

    /// Ends the test. Returns whether this call ended it: a test that has
    /// already ended keeps its first end.
    pub fn finish(&mut self) -> (ended_now: bool)
        ensures
            old(self).after_finish(*final(self)),
            ended_now == !old(self).finished,
    {
        if !self.finished {
            self.finished = true;
            true
        } else {
            false
        }
    }

    /// Ends a timed test whose time is up. `elapsed_secs` is the whole
    /// number of seconds since the first key. Returns the limit, as the
    /// test's final time, where this call ended the test.
    pub fn check_time_expired(&mut self, elapsed_secs: u64) -> (ended_at: Option<u64>)
        ensures
            match old(self).mode {
                Mode::Timed(limit) => old(self).started && elapsed_secs >= limit,
                Mode::Words(_) => false,
            } ==> old(self).after_finish(*final(self)) && ended_at == if old(self).finished {
                None
            } else {
                Some(old(self).mode->Timed_0)
            },
            !match old(self).mode {
                Mode::Timed(limit) => old(self).started && elapsed_secs >= limit,
                Mode::Words(_) => false,
            } ==> old(self).same_as(*final(self)) && ended_at is None,
    {
        if let Mode::Timed(limit) = self.mode {
            if self.started && elapsed_secs >= limit {
                if self.finish() {
                    return Some(limit);
                }
            }
        }
        None
    }

    /// Whether the test is over: ended, or typed to the last character.
    pub fn is_done(&self) -> (r: bool)
        ensures
            r == (self.finished || self.cursor >= self.chars@.len()),
    {
        if self.finished {
            return true;
        }
        if self.cursor >= self.chars.len() {
            return true;
        }
        false
    }

    /// The characters before the cursor typed correctly.
    pub fn correct_chars(&self) -> (n: usize)
        requires
            self.wf(),
        ensures
            n == count_of(self.states@, self.cursor as int, CharState::Correct),
    {
        count_states_before(&self.states, self.cursor, CharState::Correct)
    }

    /// The characters before the cursor typed wrong and not corrected.
    pub fn unfixed_errors(&self) -> (n: usize)
        requires
            self.wf(),
        ensures
            n == count_of(self.states@, self.cursor as int, CharState::Wrong),
    {
        count_states_before(&self.states, self.cursor, CharState::Wrong)
    }

    /// The words reached so far: the spaces passed, plus one for a word
    /// begun and not yet closed by a space, or that ends the text.
    pub fn words_typed(&self) -> (n: usize)
        requires
            self.wf(),
            // a vector of four-byte characters never holds `usize::MAX` of them
            self.chars@.len() < usize::MAX,
        ensures
            n == words_reached(self.chars@, self.cursor as int),
    {
        if self.cursor == 0 {
            return 0;
        }
        let spaces = count_chars_before(&self.chars, self.cursor, ' ');
        if self.cursor >= self.chars.len() || self.chars[self.cursor - 1] != ' ' {
            spaces + 1
        } else {
            spaces
        }
    }
}

/// How many of the first `n` elements of `v` equal `x`.
fn count_states_before(v: &Vec<CharState>, n: usize, x: CharState) -> (r: usize)
    requires
        n <= v@.len(),
    ensures
        r == count_of(v@, n as int, x),
        r <= n,
{
    let mut r: usize = 0;
    let mut i: usize = 0;
    while i < n
        invariant
            n <= v@.len(),
            i <= n,
            r == count_of(v@, i as int, x),
            r <= i,
        decreases n - i,
    {
        if v[i] == x {
            r += 1;
        }
        i += 1;
    }
    r
}

/// How many of the first `n` elements of `v` equal `x`.
fn count_chars_before(v: &Vec<char>, n: usize, x: char) -> (r: usize)
    requires
        n <= v@.len(),
    ensures
        r == count_of(v@, n as int, x),
        r <= n,
{
    let mut r: usize = 0;
    let mut i: usize = 0;
    while i < n
        invariant
            n <= v@.len(),
            i <= n,
            r == count_of(v@, i as int, x),
            r <= i,
        decreases n - i,
    {
        if v[i] == x {
            r += 1;
        }
        i += 1;
    }
    r
}

// ── keys ───────────────────────────────────────────────────

/// A key as the test reads it.
#[derive(Clone, Copy, PartialEq, Eq, Debug, Structural)]
pub enum Key {
    Esc,
    Tab,
    Backspace,
    Char(char),
    Other,
}

/// What the program does after a key.
#[derive(Clone, Copy, PartialEq, Eq, Debug, Structural)]
pub enum Step {
    /// Go on with this test.
    Continue,
    /// Start a new test.
    Restart,
    /// Leave the program.
    Quit,
}

impl Game {
    /// Answers a key pressed during the test, `ctrl` telling whether
    /// Control was held: Esc and Control-C quit, Tab restarts, Control-W
    /// and Control-Backspace delete a word, Backspace deletes a character,
    /// and any other character is typed; other keys do nothing.
    pub fn handle_key(&mut self, key: Key, ctrl: bool) -> (step: Step)
        requires
            old(self).wf(),
        ensures
            final(self).wf(),
            old(self).typed_prefix() ==> final(self).typed_prefix(),
            match key {
                Key::Esc => step == Step::Quit && old(self).same_as(*final(self)),
                Key::Tab => step == Step::Restart && old(self).same_as(*final(self)),
                Key::Char(c) => if ctrl && c == 'c' {
                    step == Step::Quit && old(self).same_as(*final(self))
                } else if ctrl && c == 'w' {
                    step == Step::Continue && old(self).after_word_delete(*final(self))
                } else {
                    step == Step::Continue && old(self).after_char(c, *final(self))
                },
                Key::Backspace => step == Step::Continue && if ctrl {
                    old(self).after_word_delete(*final(self))
                } else {
                    old(self).after_backspace(*final(self))
                },
                Key::Other => step == Step::Continue && old(self).same_as(*final(self)),
            },
    {
        match key {
            Key::Esc => Step::Quit,
            Key::Tab => Step::Restart,
            Key::Char(c) if ctrl && c == 'c' => Step::Quit,
            Key::Char(c) if ctrl && c == 'w' => {
                self.handle_word_delete();
                Step::Continue
            },
            Key::Backspace if ctrl => {
                self.handle_word_delete();
                Step::Continue
            },
            Key::Backspace => {
                self.handle_backspace();
                Step::Continue
            },
            Key::Char(c) => {
                self.handle_char(c);
                Step::Continue
            },
            Key::Other => Step::Continue,
        }
    }
}

/// Answers a key pressed on the results screen: Tab starts a new test and
/// any other key leaves.
pub fn results_key(key: Key) -> (step: Step)
    ensures
        step == if key == Key::Tab {
            Step::Restart
        } else {
            Step::Quit
        },
{
    match key {
        Key::Tab => Step::Restart,
        _ => Step::Quit,
    }
}

} // verus!
