# typr

A typing test for the terminal, in the manner of MonkeyType. The library
(`src/`) holds the part that is proved with Verus; the program around it
(`app/`) reads keys, keeps the clock, draws the screens and saves results.

- `game`: the test itself — the generated text, the record of what was
  typed over it, the cursor, the keys, and the counts (correct characters,
  unfixed errors, words reached).
- `laws`: what holds across calls: the typed prefix is kept by every key,
  a backspace undoes a character, a fixed mistake leaves no trace, a test
  ended ignores keys and ends once, deleting a word stops at a word's start,
  and a text typed to its end counts the words it was made of.
- `layout`: wrapping the text into lines at spaces, and where the title,
  timer, text, hints and mode bar go on a terminal of a given size.
- `words`: the three word lists and the splitting of a text into words.
- `config`: the command line's difficulty and mode, the results file's
  path and the mode's name in it.
- `text`: comparing strings and spelling numbers.
- `rng`: the random draws, which are trusted calls into `rand`.

Speeds, accuracy and times are floating point and are computed in `app/`,
from the counts that the library proves.
