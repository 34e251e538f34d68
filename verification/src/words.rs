//! The word lists that tests are drawn from, each a text of words
//! separated by spaces, and the splitting of such a text into its words.
use vstd::prelude::*;

verus! {

/// Three-letter words.
pub const EASY: &'static str = "ant arm bag bed big box boy bus cap car cat cow cup cut dad dig dog dot egg \
    end eye fan fat fig fin fit fix fly fog fun fur gap gas gum hat hen hit hop \
    hot hug ice ink jam jar jet job jog joy key kid kit lap leg lid lip log map \
    mat mix mom mud mug net nod nut oak odd oil owl pan pen pet pig pin pit pot \
    pup rag ram rat red rib rip rod rub rug run sad sap saw sea set sip sit six \
    sky sun tab tag tan tap tea ten tin tip toe top toy tub two van wax web wet \
    wig win yes zip";

/// Six-letter words of everyday things.
pub const MEDIUM: &'static str = "anchor autumn basket blanket bottle branch bridge butter candle carpet \
    castle cattle circle cotton dinner doctor dragon engine famous farmer finger \
    flower forest garden ginger guitar hammer harbor helmet island jacket jungle \
    kettle ladder lemon letter listen marble meadow mirror monkey narrow needle \
    number orange pencil pepper pillow planet pocket puzzle rabbit ribbon rocket \
    saddle silver singer sister spider spring summer ticket tomato tunnel turtle \
    valley velvet wallet winter yellow";

/// Long words with unusual spellings.
pub const HARD: &'static str = "abundance algorithm ambiguous apparatus archipelago asymmetric benevolent \
    boulevard calligraphy camouflage catastrophe chrysanthemum connoisseur \
    crescendo curriculum deteriorate effervescent embarrass exaggerate \
    extravaganza fahrenheit flamboyant gregarious hypothesis infinitesimal \
    innuendo labyrinth lieutenant magnanimous mediterranean millennium mnemonic \
    nonchalant obsolescence paraphernalia parliament phenomenon pneumonia \
    precipitation psychology quarantine reminiscent rhinoceros silhouette \
    sophisticated spontaneous symmetrical temperament tranquility unprecedented \
    vaudeville wednesday";

/// Reading `s` up to position `n`: the words completed so far, and the
/// word being read (empty between words).
pub open spec fn scan_words(s: Seq<char>, n: int) -> (Seq<Seq<char>>, Seq<char>)
    decreases n,
{
    if n <= 0 {
        (Seq::empty(), Seq::empty())
    } else {
        let prev = scan_words(s, n - 1);
        if s[n - 1] == ' ' {
            if prev.1.len() > 0 {
                (prev.0.push(prev.1), Seq::empty())
            } else {
                (prev.0, Seq::empty())
            }
        } else {
            (prev.0, prev.1.push(s[n - 1]))
        }
    }
}

/// The words of `s`: its runs of non-space characters, in order.
pub open spec fn split_words(s: Seq<char>) -> Seq<Seq<char>> {
    let last = scan_words(s, s.len() as int);
    if last.1.len() > 0 {
        last.0.push(last.1)
    } else {
        last.0
    }
}

/// A word: not empty, and without spaces.
pub open spec fn plain_word(w: Seq<char>) -> bool {
    w.len() > 0 && forall|i: int| 0 <= i < w.len() ==> w[i] != ' '
}

proof fn lemma_scan_plain(s: Seq<char>, n: int)
    requires
        0 <= n <= s.len(),
    ensures
        forall|i: int| 0 <= i < scan_words(s, n).0.len() ==> plain_word(#[trigger] scan_words(s, n).0[i]),
        forall|i: int| 0 <= i < scan_words(s, n).1.len() ==> scan_words(s, n).1[i] != ' ',
        n > 0 && s[n - 1] != ' ' ==> scan_words(s, n).1.len() > 0,
    decreases n,
{
    if n > 0 {
        lemma_scan_plain(s, n - 1);
        let prev = scan_words(s, n - 1);
        if s[n - 1] == ' ' && prev.1.len() > 0 {
            assert forall|i: int| 0 <= i < scan_words(s, n).0.len() implies plain_word(
                #[trigger] scan_words(s, n).0[i],
            ) by {
                if i < prev.0.len() {
                    assert(scan_words(s, n).0[i] == prev.0[i]);
                }
            }
        }
    }
}

/// Every word of a text is a plain word.
pub proof fn lemma_split_plain(s: Seq<char>)
    ensures
        forall|i: int| 0 <= i < split_words(s).len() ==> plain_word(#[trigger] split_words(s)[i]),
{
    lemma_scan_plain(s, s.len() as int);
    let last = scan_words(s, s.len() as int);
    if last.1.len() > 0 {
        assert forall|i: int| 0 <= i < split_words(s).len() implies plain_word(
            #[trigger] split_words(s)[i],
        ) by {
            if i < last.0.len() {
                assert(split_words(s)[i] == last.0[i]);
            }
        }
    }
}

/// Once a word has been read, the words never run out again.
proof fn lemma_scan_keeps_words(s: Seq<char>, m: int, n: int)
    requires
        0 <= m <= n <= s.len(),
        scan_words(s, m).0.len() > 0 || scan_words(s, m).1.len() > 0,
    ensures
        scan_words(s, n).0.len() > 0 || scan_words(s, n).1.len() > 0,
    decreases n - m,
{
    if m < n {
        lemma_scan_plain(s, m + 1);
        lemma_scan_keeps_words(s, m + 1, n);
    }
}

/// A text that starts with a non-space character has a word.
pub proof fn lemma_split_nonempty(s: Seq<char>)
    requires
        s.len() > 0,
        s[0] != ' ',
    ensures
        split_words(s).len() > 0,
{
    lemma_scan_plain(s, 1);
    lemma_scan_keeps_words(s, 1, s.len() as int);
}

/// The words of `text`, each as its characters.
pub fn words_of(text: &str) -> (ws: Vec<Vec<char>>)
    ensures
        ws@.map_values(|w: Vec<char>| w@) == split_words(text@),
{
    let n = text.unicode_len();
    let ghost s = text@;
    let mut ws: Vec<Vec<char>> = Vec::new();
    let mut cur: Vec<char> = Vec::new();
    let mut i: usize = 0;
    while i < n
        invariant
            n == s.len(),
            s == text@,
            i <= n,
            ws@.map_values(|w: Vec<char>| w@) == scan_words(s, i as int).0,
            cur@ == scan_words(s, i as int).1,
        decreases n - i,
    {
        let c = text.get_char(i);
        if c == ' ' {
            if cur.len() > 0 {
                let ghost before = ws@;
                let done = cur;
                ws.push(done);
                cur = Vec::new();
                assert(ws@.map_values(|w: Vec<char>| w@) =~= before.map_values(|w: Vec<char>| w@).push(
                    done@,
                ));
            }
        } else {
            cur.push(c);
        }
        i += 1;
    }
    if cur.len() > 0 {
        let ghost before = ws@;
        let done = cur;
        ws.push(done);
        assert(ws@.map_values(|w: Vec<char>| w@) =~= before.map_values(|w: Vec<char>| w@).push(
            done@,
        ));
    }
    ws
}

/// Each list starts with a word.
proof fn lemma_lists_have_words()
    ensures
        split_words(EASY@).len() > 0,
        split_words(MEDIUM@).len() > 0,
        split_words(HARD@).len() > 0,
{
    // Verus learns what a string literal holds only from the literal itself.
    reveal_strlit("ant arm bag bed big box boy bus cap car cat cow cup cut dad dig dog dot egg \
        end eye fan fat fig fin fit fix fly fog fun fur gap gas gum hat hen hit hop \
        hot hug ice ink jam jar jet job jog joy key kid kit lap leg lid lip log map \
        mat mix mom mud mug net nod nut oak odd oil owl pan pen pet pig pin pit pot \
        pup rag ram rat red rib rip rod rub rug run sad sap saw sea set sip sit six \
        sky sun tab tag tan tap tea ten tin tip toe top toy tub two van wax web wet \
        wig win yes zip");
    reveal_strlit("anchor autumn basket blanket bottle branch bridge butter candle carpet \
        castle cattle circle cotton dinner doctor dragon engine famous farmer finger \
        flower forest garden ginger guitar hammer harbor helmet island jacket jungle \
        kettle ladder lemon letter listen marble meadow mirror monkey narrow needle \
        number orange pencil pepper pillow planet pocket puzzle rabbit ribbon rocket \
        saddle silver singer sister spider spring summer ticket tomato tunnel turtle \
        valley velvet wallet winter yellow");
    reveal_strlit("abundance algorithm ambiguous apparatus archipelago asymmetric benevolent \
        boulevard calligraphy camouflage catastrophe chrysanthemum connoisseur \
        crescendo curriculum deteriorate effervescent embarrass exaggerate \
        extravaganza fahrenheit flamboyant gregarious hypothesis infinitesimal \
        innuendo labyrinth lieutenant magnanimous mediterranean millennium mnemonic \
        nonchalant obsolescence paraphernalia parliament phenomenon pneumonia \
        precipitation psychology quarantine reminiscent rhinoceros silhouette \
        sophisticated spontaneous symmetrical temperament tranquility unprecedented \
        vaudeville wednesday");
    assert(EASY@[0] == 'a');
    lemma_split_nonempty(EASY@);
    assert(MEDIUM@[0] == 'a');
    lemma_split_nonempty(MEDIUM@);
    assert(HARD@[0] == 'a');
    lemma_split_nonempty(HARD@);
}

/// The words of one of the lists: there is at least one.
pub fn list_words(list: &'static str) -> (ws: Vec<Vec<char>>)
    requires
        list == EASY || list == MEDIUM || list == HARD,
    ensures
        ws@.map_values(|w: Vec<char>| w@) == split_words(list@),
        ws@.len() > 0,
{
    let ws = words_of(list);
    proof {
        lemma_lists_have_words();
    }
    assert(ws@.map_values(|w: Vec<char>| w@).len() == ws@.len());
    ws
}

} // verus!
