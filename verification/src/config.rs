//! What the command line chooses, and where results are kept.
use vstd::prelude::*;

use crate::game::Mode;
use crate::text::{append_chars, chars_of, decimal, decimal_chars, push_str, same_text};

verus! {

/// What `str::to_lowercase` makes of a string: Unicode's lower-case
/// mapping.
pub uninterp spec fn lowercase(s: Seq<char>) -> Seq<char>;

/// Calls `str::to_lowercase`, whose result is a function of the string
/// alone. The mapping itself (Unicode's tables, with its rules on context
/// such as a final sigma) is not written out: only the name ties the result
/// to the argument.
#[verifier::external_body]
fn to_lowercase(s: &str) -> (r: String)
    ensures
        r@ == lowercase(s@),
{
    s.to_lowercase()
}

/// The difficulty that a lower-cased name or abbreviation stands for;
/// anything else is "mix".
pub open spec fn difficulty_named(lowered: Seq<char>) -> Seq<char> {
    if lowered == "easy"@ || lowered == "e"@ {
        "easy"@
    } else if lowered == "medium"@ || lowered == "med"@ || lowered == "m"@ {
        "medium"@
    } else if lowered == "hard"@ || lowered == "h"@ {
        "hard"@
    } else {
        "mix"@
    }
}

/// The difficulty that an already lower-cased name stands for.
pub fn difficulty_from_lowered(lowered: &str) -> (d: &'static str)
    ensures
        d@ == difficulty_named(lowered@),
{
    if same_text(lowered, "easy") || same_text(lowered, "e") {
        "easy"
    } else if same_text(lowered, "medium") || same_text(lowered, "med") || same_text(lowered, "m") {
        "medium"
    } else if same_text(lowered, "hard") || same_text(lowered, "h") {
        "hard"
    } else {
        "mix"
    }
}

/// The difficulty that a name given on the command line stands for, in
/// any case: "easy"/"e", "medium"/"med"/"m", "hard"/"h", and "mix" for
/// anything else.
pub fn normalize_difficulty(raw: &str) -> (d: &'static str)
    ensures
        d@ == difficulty_named(lowercase(raw@)),
{
    let lowered = to_lowercase(raw);
    difficulty_from_lowered(lowered.as_str())
}

/// The test the command line asks for: a word count wins over a time
/// limit, and the time limit is 30 seconds when none is given.
pub fn select_mode(time: Option<u64>, words: Option<usize>) -> (m: Mode)
    ensures
        m == match words {
            Some(w) => Mode::Words(w),
            None => Mode::Timed(
                match time {
                    Some(t) => t,
                    None => 30,
                },
            ),
        },
{
    match words {
        Some(w) => Mode::Words(w),
        None => Mode::Timed(
            match time {
                Some(t) => t,
                None => 30,
            },
        ),
    }
}

/// The results file, in the home directory when there is one and in the
/// working directory otherwise; a separator is put between the two only
/// where the directory does not end with one, and an empty directory
/// adds nothing.
pub open spec fn results_file(home: Option<Seq<char>>) -> Seq<char> {
    match home {
        None => "./typr_results.json"@,
        Some(h) => if h.len() == 0 {
            "typr_results.json"@
        } else if h.last() == '/' {
            h + "typr_results.json"@
        } else {
            h + "/typr_results.json"@
        },
    }
}

/// Where results are saved, given the value of `HOME` if it is set.
pub fn results_path(home: Option<&str>) -> (p: Vec<char>)
    ensures
        p@ == results_file(
            match home {
                Some(h) => Some(h@),
                None => None,
            },
        ),
{
    match home {
        None => chars_of("./typr_results.json"),
        Some(h) => {
            let mut p = chars_of(h);
            let n = p.len();
            if n == 0 {
                chars_of("typr_results.json")
            } else if p[n - 1] == '/' {
                push_str(&mut p, "typr_results.json");
                p
            } else {
                push_str(&mut p, "/typr_results.json");
                p
            }
        },
    }
}

/// The mode as results record it: `timed_<seconds>s` or `words_<count>`.
pub open spec fn mode_name(mode: Mode) -> Seq<char> {
    match mode {
        Mode::Timed(s) => "timed_"@ + decimal(s as nat) + "s"@,
        Mode::Words(w) => "words_"@ + decimal(w as nat),
    }
}

/// Spells the mode as results record it.
pub fn mode_tag(mode: Mode) -> (t: Vec<char>)
    ensures
        t@ == mode_name(mode),
{
    match mode {
        Mode::Timed(s) => {
            let mut t = chars_of("timed_");
            append_chars(&mut t, &decimal_chars(s));
            push_str(&mut t, "s");
            t
        },
        Mode::Words(w) => {
            let mut t = chars_of("words_");
            append_chars(&mut t, &decimal_chars(w as u64));
            t
        },
    }
}

} // verus!
