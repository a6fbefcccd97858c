//! The chat panel's message kinds and its word-wrapping of long messages.
//! Rendering and timestamps live outside the verified library.

use vstd::prelude::*;
use vstd::string::*;
use crate::text::{skip_ws, spec_is_ws, spec_skip_ws, string_from_chars, subvec, to_chars, views_of};


verus! {

/// Who a chat message came from.
#[derive(Debug, Clone, Copy, PartialEq, Eq, Structural)]
pub enum MessageType {
    User,
    Assistant,
    System,
}

/// The end of a run of non-whitespace characters.
pub open spec fn spec_word_run_end(s: Seq<char>, i: int) -> int
    decreases s.len() - i,
{
    if i < 0 || i >= s.len() || spec_is_ws(s[i]) {
        i
    } else {
        spec_word_run_end(s, i + 1)
    }
}

/// The whitespace-separated words of `s` from `i` on.
pub open spec fn spec_words_from(s: Seq<char>, i: int) -> Seq<Seq<char>>
    decreases s.len() - i,
{
    if i < 0 || i > s.len() {
        Seq::empty()
    } else {
        let j = spec_skip_ws(s, i);
        if j >= s.len() || j < i {
            Seq::empty()
        } else {
            let k = spec_word_run_end(s, j);
            if j < k && k <= s.len() {
                seq![s.subrange(j, k)] + spec_words_from(s, k)
            } else {
                Seq::empty()
            }
        }
    }
}

pub open spec fn spec_words(s: Seq<char>) -> Seq<Seq<char>> {
    spec_words_from(s, 0)
}

/// One word-wrapping step: start a fresh line when the word (plus a
/// separating space) would push the current line past the width, then add
/// the word to the current line.
pub open spec fn spec_wrap_step(
    state: (Seq<Seq<char>>, Seq<char>),
    word: Seq<char>,
    max_width: int,
) -> (Seq<Seq<char>>, Seq<char>) {
    let (lines, current) = state;
    let (lines2, current2) = if current.len() + word.len() + 1 > max_width && current.len() > 0 {
        (lines.push(current), Seq::<char>::empty())
    } else {
        (lines, current)
    };
    if current2.len() > 0 {
        (lines2, current2 + " "@ + word)
    } else {
        (lines2, word)
    }
}

pub open spec fn spec_wrap_loop(
    words: Seq<Seq<char>>,
    i: int,
    state: (Seq<Seq<char>>, Seq<char>),
    max_width: int,
) -> (Seq<Seq<char>>, Seq<char>)
    decreases words.len() - i,
{
    if i < 0 || i >= words.len() {
        state
    } else {
        spec_wrap_loop(words, i + 1, spec_wrap_step(state, words[i], max_width), max_width)
    }
}

/// The wrapped lines of `text`: words are packed onto lines of at most
/// `max_width` characters (counting the separating spaces); a word longer
/// than the width gets a line of its own; text without a single word comes
/// back whole as one line.
pub open spec fn spec_wrap(text: Seq<char>, max_width: int) -> Seq<Seq<char>> {
    let folded = spec_wrap_loop(spec_words(text), 0, (Seq::empty(), Seq::empty()), max_width);
    let lines = if folded.1.len() > 0 {
        folded.0.push(folded.1)
    } else {
        folded.0
    };
    if lines.len() == 0 {
        seq![text]
    } else {
        lines
    }
}

proof fn lemma_word_run_bounds(s: Seq<char>, i: int)
    requires
        0 <= i <= s.len(),
    ensures
        i <= spec_word_run_end(s, i) <= s.len(),
    decreases s.len() - i,
{
    if !(i >= s.len() || spec_is_ws(s[i])) {
        lemma_word_run_bounds(s, i + 1);
    }
}

fn word_run_end(s: &Vec<char>, i: usize) -> (r: usize)
    requires
        i <= s@.len(),
    ensures
        r as int == spec_word_run_end(s@, i as int),
        i <= r <= s@.len(),
    decreases s@.len() - i,
{
    if i < s.len() && !crate::text::is_ws(s[i]) {
        word_run_end(s, i + 1)
    } else {
        i
    }
}

/// Wraps a message to a width (`spec_wrap`), exactly.
pub fn wrap_text(text: &str, max_width: usize) -> (r: Vec<String>)
    ensures
        r@.len() == spec_wrap(text@, max_width as int).len(),
        forall|k: int|
            0 <= k < r@.len() ==> (#[trigger] r@[k])@ == spec_wrap(text@, max_width as int)[k],
{
    let s = to_chars(text);
    let mut words: Vec<Vec<char>> = Vec::new();
    let mut i: usize = 0;
    proof {
        assert(views_of(words@) + spec_words_from(s@, 0) =~= spec_words(s@));
    }
    loop
        invariant
            i <= s@.len(),
            s@ == text@,
            views_of(words@) + spec_words_from(s@, i as int) == spec_words(s@),
        ensures
            views_of(words@) == spec_words(s@),
        decreases s@.len() - i,
    {
        let j = skip_ws(&s, i);
        if j >= s.len() {
            proof {
                assert(views_of(words@) =~= spec_words(s@));
            }
            break;
        }
        let k = word_run_end(&s, j);
        proof {
            crate::text::lemma_skip_ws_stops(s@, i as int);
            lemma_word_run_bounds(s@, j + 1);
            assert(j < k);
        }
        let ghost pre = views_of(words@);
        words.push(subvec(&s, j, k));
        proof {
            assert(views_of(words@) =~= pre.push(s@.subrange(j as int, k as int)));
            assert(views_of(words@) + spec_words_from(s@, k as int) =~= spec_words(s@));
        }
        i = k;
    }
    let ghost all_words = views_of(words@);
    let mut lines: Vec<Vec<char>> = Vec::new();
    let mut current: Vec<char> = Vec::new();
    let mut w: usize = 0;
    proof {
        assert(views_of(lines@) =~= Seq::<Seq<char>>::empty());
        assert(current@ =~= Seq::<char>::empty());
    }
    while w < words.len()
        invariant
            w <= words@.len(),
            all_words == views_of(words@),
            all_words == spec_words(text@),
            spec_wrap_loop(all_words, w as int, (views_of(lines@), current@), max_width as int)
                == spec_wrap_loop(
                all_words,
                0,
                (Seq::<Seq<char>>::empty(), Seq::<char>::empty()),
                max_width as int,
            ),
        decreases words@.len() - w,
    {
        let ghost pre_state = (views_of(lines@), current@);
        let word_len = words[w].len();
        let over = if current.len() > max_width {
            true
        } else {
            word_len >= max_width - current.len()
        };
        if over && current.len() > 0 {
            let ghost pre_lines = views_of(lines@);
            lines.push(current);
            proof {
                assert(views_of(lines@) =~= pre_lines.push(pre_state.1));
            }
            current = Vec::new();
        }
        if current.len() > 0 {
            current.push(' ');
        }
        let mut piece = subvec(&words[w], 0, words[w].len());
        current.append(&mut piece);
        proof {
            reveal_strlit(" ");
            assert((views_of(lines@), current@) =~~= spec_wrap_step(
                pre_state,
                all_words[w as int],
                max_width as int,
            ));
        }
        w += 1;
    }
    proof {
        let folded = spec_wrap_loop(
            spec_words(text@),
            0,
            (Seq::<Seq<char>>::empty(), Seq::<char>::empty()),
            max_width as int,
        );
        assert(folded == (views_of(lines@), current@));
    }
    let folded_lines: Vec<Vec<char>> = if current.len() > 0 {
        let mut ls = lines;
        let ghost pre_lines = views_of(ls@);
        ls.push(current);
        proof {
            assert(views_of(ls@) =~= pre_lines.push(
                spec_wrap_loop(
                    all_words,
                    0,
                    (Seq::<Seq<char>>::empty(), Seq::<char>::empty()),
                    max_width as int,
                ).1,
            ));
        }
        ls
    } else {
        lines
    };
    proof {
        if views_of(folded_lines@).len() > 0 {
            assert(views_of(folded_lines@) =~= spec_wrap(text@, max_width as int));
        }
    }
    let mut out: Vec<String> = Vec::new();
    if folded_lines.len() == 0 {
        out.push(String::from_str(text));
        proof {
            assert(out@[0]@ == spec_wrap(text@, max_width as int)[0]);
        }
        return out;
    }
    let mut idx: usize = 0;
    while idx < folded_lines.len()
        invariant
            idx <= folded_lines@.len(),
            folded_lines@.len() > 0,
            views_of(folded_lines@) == spec_wrap(text@, max_width as int),
            out@.len() == idx,
            forall|k: int|
                0 <= k < idx ==> (#[trigger] out@[k])@ == spec_wrap(text@, max_width as int)[k],
        decreases folded_lines@.len() - idx,
    {
        out.push(string_from_chars(&folded_lines[idx]));
        idx += 1;
    }
    out
}

} // verus!
