//! The heuristic half of the parser: nine ordered, case-insensitive
//! pattern categories applied over the whole text, every match of every
//! category yielding one action.  Categories are independent: they do not
//! suppress each other, so one span can yield several actions.

use vstd::prelude::*;
use crate::text::{
    at_pos_ci, check_at_ci, is_ws, lemma_skip_ws_bounds, skip_ws, spec_is_ws, spec_skip_ws,
    to_chars,
};

verus! {

/// The quote characters trimmed around targets and refused inside them.
pub open spec fn spec_is_quote(c: char) -> bool {
    c == '`' || c == '"' || c == '\''
}

pub fn is_quote(c: char) -> (r: bool)
    ensures
        r == spec_is_quote(c),
{
    c == '`' || c == '"' || c == '\''
}

/// A case-insensitive literal at `i`: the position after it, or nothing.
pub open spec fn spec_kw(s: Seq<char>, i: int, kw: Seq<char>) -> Option<int> {
    if at_pos_ci(s, i, kw) {
        Some(i + kw.len())
    } else {
        None
    }
}

fn kw_at(s: &Vec<char>, i: usize, kw: &Vec<char>) -> (r: Option<usize>)
    ensures
        match r {
            Some(a) => spec_kw(s@, i as int, kw@) == Some(a as int) && i <= a <= s@.len(),
            None => spec_kw(s@, i as int, kw@) is None,
        },
{
    if check_at_ci(s, i, kw) {
        let n = s.len();
        proof {
            assert(i + kw@.len() <= n);
        }
        Some(i + kw.len())
    } else {
        None
    }
}

/// One or more whitespace characters: the position after the run, or
/// nothing when none is there.
pub open spec fn spec_plus_ws(s: Seq<char>, i: int) -> Option<int> {
    if 0 <= i < s.len() && spec_is_ws(s[i]) {
        Some(spec_skip_ws(s, i))
    } else {
        None
    }
}

fn plus_ws(s: &Vec<char>, i: usize) -> (r: Option<usize>)
    requires
        i <= s@.len(),
    ensures
        match r {
            Some(b) => spec_plus_ws(s@, i as int) == Some(b as int) && i < b <= s@.len(),
            None => spec_plus_ws(s@, i as int) is None,
        },
{
    if i < s.len() && is_ws(s[i]) {
        let b = skip_ws(s, i);
        proof {
            lemma_skip_ws_bounds(s@, i + 1);
        }
        Some(b)
    } else {
        None
    }
}

/// The end of a run of plain target characters: everything but whitespace
/// and quotes.
pub open spec fn spec_plain_end(s: Seq<char>, i: int) -> int
    decreases s.len() - i,
{
    if i < 0 || i >= s.len() || spec_is_ws(s[i]) || spec_is_quote(s[i]) {
        i
    } else {
        spec_plain_end(s, i + 1)
    }
}

fn plain_end(s: &Vec<char>, i: usize) -> (r: usize)
    requires
        i <= s@.len(),
    ensures
        r as int == spec_plain_end(s@, i as int),
        i <= r <= s@.len(),
    decreases s@.len() - i,
{
    if i < s.len() && !is_ws(s[i]) && !is_quote(s[i]) {
        plain_end(s, i + 1)
    } else {
        i
    }
}

/// The end of a run of command characters: everything but quotes and line
/// feeds (a command may contain spaces).
pub open spec fn spec_cmd_end(s: Seq<char>, i: int) -> int
    decreases s.len() - i,
{
    if i < 0 || i >= s.len() || s[i] == '\n' || spec_is_quote(s[i]) {
        i
    } else {
        spec_cmd_end(s, i + 1)
    }
}

fn cmd_end(s: &Vec<char>, i: usize) -> (r: usize)
    requires
        i <= s@.len(),
    ensures
        r as int == spec_cmd_end(s@, i as int),
        i <= r <= s@.len(),
    decreases s@.len() - i,
{
    if i < s.len() && s[i] != '\n' && !is_quote(s[i]) {
        cmd_end(s, i + 1)
    } else {
        i
    }
}

/// An optionally quoted plain target: the target's span and the position
/// after an optional closing quote.  At least one target character must be
/// there.
pub open spec fn spec_file_target(s: Seq<char>, i: int) -> Option<(int, int, int)> {
    if i < 0 || i > s.len() {
        None
    } else {
        let j = if i < s.len() && spec_is_quote(s[i]) {
            i + 1
        } else {
            i
        };
        let k = spec_plain_end(s, j);
        if k == j {
            None
        } else {
            let e = if k < s.len() && spec_is_quote(s[k]) {
                k + 1
            } else {
                k
            };
            Some((j, k, e))
        }
    }
}

fn file_target(s: &Vec<char>, i: usize) -> (r: Option<(usize, usize, usize)>)
    requires
        i <= s@.len(),
    ensures
        match r {
            Some(t) => spec_file_target(s@, i as int) == Some(
                (t.0 as int, t.1 as int, t.2 as int),
            ) && i <= t.0 < t.1 <= t.2 <= s@.len(),
            None => spec_file_target(s@, i as int) is None,
        },
{
    let j = if i < s.len() && is_quote(s[i]) {
        i + 1
    } else {
        i
    };
    let k = plain_end(s, j);
    if k == j {
        None
    } else {
        let e = if k < s.len() && is_quote(s[k]) {
            k + 1
        } else {
            k
        };
        Some((j, k, e))
    }
}

/// An optionally quoted command target.
pub open spec fn spec_cmd_target(s: Seq<char>, i: int) -> Option<(int, int, int)> {
    if i < 0 || i > s.len() {
        None
    } else {
        let j = if i < s.len() && spec_is_quote(s[i]) {
            i + 1
        } else {
            i
        };
        let k = spec_cmd_end(s, j);
        if k == j {
            None
        } else {
            let e = if k < s.len() && spec_is_quote(s[k]) {
                k + 1
            } else {
                k
            };
            Some((j, k, e))
        }
    }
}

fn cmd_target(s: &Vec<char>, i: usize) -> (r: Option<(usize, usize, usize)>)
    requires
        i <= s@.len(),
    ensures
        match r {
            Some(t) => spec_cmd_target(s@, i as int) == Some((t.0 as int, t.1 as int, t.2 as int))
                && i <= t.0 < t.1 <= t.2 <= s@.len(),
            None => spec_cmd_target(s@, i as int) is None,
        },
{
    let j = if i < s.len() && is_quote(s[i]) {
        i + 1
    } else {
        i
    };
    let k = cmd_end(s, j);
    if k == j {
        None
    } else {
        let e = if k < s.len() && is_quote(s[k]) {
            k + 1
        } else {
            k
        };
        Some((j, k, e))
    }
}

/// The keyword `file`, whitespace, then the target.
pub open spec fn spec_file_kw_target(s: Seq<char>, x: int) -> Option<(int, int, int)> {
    match spec_kw(s, x, "file"@) {
        Some(y) => match spec_plus_ws(s, y) {
            Some(z) => spec_file_target(s, z),
            None => None,
        },
        None => None,
    }
}

fn file_kw_target(s: &Vec<char>, x: usize) -> (r: Option<(usize, usize, usize)>)
    requires
        x <= s@.len(),
    ensures
        match r {
            Some(t) => spec_file_kw_target(s@, x as int) == Some(
                (t.0 as int, t.1 as int, t.2 as int),
            ) && x <= t.0 < t.1 <= t.2 <= s@.len(),
            None => spec_file_kw_target(s@, x as int) is None,
        },
{
    match kw_at(s, x, &to_chars("file")) {
        Some(y) => match plus_ws(s, y) {
            Some(z) => file_target(s, z),
            None => None,
        },
        None => None,
    }
}

/// An optional word followed by whitespace, in front of a continuation:
/// the matcher first tries the word, and falls back to the continuation
/// alone when the word (or what follows it) does not fit.
pub open spec fn spec_opt_word_then(
    s: Seq<char>,
    i: int,
    w: Seq<char>,
    cont: spec_fn(Seq<char>, int) -> Option<(int, int, int)>,
) -> Option<(int, int, int)> {
    let with_word = match spec_kw(s, i, w) {
        Some(c0) => match spec_plus_ws(s, c0) {
            Some(c) => cont(s, c),
            None => None,
        },
        None => None,
    };
    if with_word is Some {
        with_word
    } else {
        cont(s, i)
    }
}

/// The `read`, `delete` and `remove` categories share one shape: the verb,
/// an optional `the`, the word `file`, and the target.
pub open spec fn spec_match_verb_file_at(s: Seq<char>, i: int, verb: Seq<char>) -> Option<
    (int, int, int),
> {
    match spec_kw(s, i, verb) {
        Some(a) => match spec_plus_ws(s, a) {
            Some(b) => spec_opt_word_then(
                s,
                b,
                "the"@,
                |s2: Seq<char>, x: int| spec_file_kw_target(s2, x),
            ),
            None => None,
        },
        None => None,
    }
}

fn match_verb_file_at(s: &Vec<char>, i: usize, verb: &Vec<char>) -> (r: Option<
    (usize, usize, usize),
>)
    requires
        i <= s@.len(),
    ensures
        match r {
            Some(t) => spec_match_verb_file_at(s@, i as int, verb@) == Some(
                (t.0 as int, t.1 as int, t.2 as int),
            ) && i <= t.0 < t.1 <= t.2 <= s@.len(),
            None => spec_match_verb_file_at(s@, i as int, verb@) is None,
        },
{
    match kw_at(s, i, verb) {
        Some(a) => match plus_ws(s, a) {
            Some(b) => {
                let with_the = match kw_at(s, b, &to_chars("the")) {
                    Some(c0) => match plus_ws(s, c0) {
                        Some(c) => file_kw_target(s, c),
                        None => None,
                    },
                    None => None,
                };
                match with_the {
                    Some(t) => Some(t),
                    None => file_kw_target(s, b),
                }
            },
            None => None,
        },
        None => None,
    }
}

/// `write`, optional `to`, optional `the`, the word `file`, the target.
pub open spec fn spec_match_write_at(s: Seq<char>, i: int) -> Option<(int, int, int)> {
    match spec_kw(s, i, "write"@) {
        Some(a) => match spec_plus_ws(s, a) {
            Some(b) => spec_opt_word_then(
                s,
                b,
                "to"@,
                |s2: Seq<char>, x: int|
                    spec_opt_word_then(
                        s2,
                        x,
                        "the"@,
                        |s3: Seq<char>, y: int| spec_file_kw_target(s3, y),
                    ),
            ),
            None => None,
        },
        None => None,
    }
}

fn write_tail(s: &Vec<char>, x: usize) -> (r: Option<(usize, usize, usize)>)
    requires
        x <= s@.len(),
    ensures
        ({
            let m = spec_opt_word_then(
                s@,
                x as int,
                "the"@,
                |s3: Seq<char>, y: int| spec_file_kw_target(s3, y),
            );
            match r {
                Some(t) => m == Some((t.0 as int, t.1 as int, t.2 as int)) && x <= t.0 < t.1 <= t.2
                    <= s@.len(),
                None => m is None,
            }
        }),
{
    let with_the = match kw_at(s, x, &to_chars("the")) {
        Some(c0) => match plus_ws(s, c0) {
            Some(c) => file_kw_target(s, c),
            None => None,
        },
        None => None,
    };
    match with_the {
        Some(t) => Some(t),
        None => file_kw_target(s, x),
    }
}

fn match_write_at(s: &Vec<char>, i: usize) -> (r: Option<(usize, usize, usize)>)
    requires
        i <= s@.len(),
    ensures
        match r {
            Some(t) => spec_match_write_at(s@, i as int) == Some(
                (t.0 as int, t.1 as int, t.2 as int),
            ) && i <= t.0 < t.1 <= t.2 <= s@.len(),
            None => spec_match_write_at(s@, i as int) is None,
        },
{
    match kw_at(s, i, &to_chars("write")) {
        Some(a) => match plus_ws(s, a) {
            Some(b) => {
                let with_to = match kw_at(s, b, &to_chars("to")) {
                    Some(c0) => match plus_ws(s, c0) {
                        Some(c) => write_tail(s, c),
                        None => None,
                    },
                    None => None,
                };
                match with_to {
                    Some(t) => Some(t),
                    None => write_tail(s, b),
                }
            },
            None => None,
        },
        None => None,
    }
}

/// After `file` in the `create` category: an optional ` called`, then
/// whitespace and the target.
pub open spec fn spec_create_after_file(s: Seq<char>, y: int) -> Option<(int, int, int)> {
    let with_called = match spec_plus_ws(s, y) {
        Some(w) => match spec_kw(s, w, "called"@) {
            Some(z) => match spec_plus_ws(s, z) {
                Some(v) => spec_file_target(s, v),
                None => None,
            },
            None => None,
        },
        None => None,
    };
    if with_called is Some {
        with_called
    } else {
        match spec_plus_ws(s, y) {
            Some(v) => spec_file_target(s, v),
            None => None,
        }
    }
}

fn create_after_file(s: &Vec<char>, y: usize) -> (r: Option<(usize, usize, usize)>)
    requires
        y <= s@.len(),
    ensures
        match r {
            Some(t) => spec_create_after_file(s@, y as int) == Some(
                (t.0 as int, t.1 as int, t.2 as int),
            ) && y <= t.0 < t.1 <= t.2 <= s@.len(),
            None => spec_create_after_file(s@, y as int) is None,
        },
{
    let with_called = match plus_ws(s, y) {
        Some(w) => match kw_at(s, w, &to_chars("called")) {
            Some(z) => match plus_ws(s, z) {
                Some(v) => file_target(s, v),
                None => None,
            },
            None => None,
        },
        None => None,
    };
    match with_called {
        Some(t) => Some(t),
        None => match plus_ws(s, y) {
            Some(v) => file_target(s, v),
            None => None,
        },
    }
}

/// `create`, optional `a`, optional `new`, the word `file`, an optional
/// ` called`, the target.
pub open spec fn spec_create_rest2(s: Seq<char>, x: int) -> Option<(int, int, int)> {
    match spec_kw(s, x, "file"@) {
        Some(y) => spec_create_after_file(s, y),
        None => None,
    }
}

pub open spec fn spec_match_create_at(s: Seq<char>, i: int) -> Option<(int, int, int)> {
    match spec_kw(s, i, "create"@) {
        Some(a) => match spec_plus_ws(s, a) {
            Some(b) => spec_opt_word_then(
                s,
                b,
                "a"@,
                |s2: Seq<char>, x: int|
                    spec_opt_word_then(
                        s2,
                        x,
                        "new"@,
                        |s3: Seq<char>, y: int| spec_create_rest2(s3, y),
                    ),
            ),
            None => None,
        },
        None => None,
    }
}

fn create_rest2(s: &Vec<char>, x: usize) -> (r: Option<(usize, usize, usize)>)
    requires
        x <= s@.len(),
    ensures
        match r {
            Some(t) => spec_create_rest2(s@, x as int) == Some((t.0 as int, t.1 as int, t.2 as int))
                && x <= t.0 < t.1 <= t.2 <= s@.len(),
            None => spec_create_rest2(s@, x as int) is None,
        },
{
    match kw_at(s, x, &to_chars("file")) {
        Some(y) => create_after_file(s, y),
        None => None,
    }
}

fn create_rest1(s: &Vec<char>, x: usize) -> (r: Option<(usize, usize, usize)>)
    requires
        x <= s@.len(),
    ensures
        ({
            let m = spec_opt_word_then(
                s@,
                x as int,
                "new"@,
                |s3: Seq<char>, y: int| spec_create_rest2(s3, y),
            );
            match r {
                Some(t) => m == Some((t.0 as int, t.1 as int, t.2 as int)) && x <= t.0 < t.1 <= t.2
                    <= s@.len(),
                None => m is None,
            }
        }),
{
    let with_new = match kw_at(s, x, &to_chars("new")) {
        Some(c0) => match plus_ws(s, c0) {
            Some(c) => create_rest2(s, c),
            None => None,
        },
        None => None,
    };
    match with_new {
        Some(t) => Some(t),
        None => create_rest2(s, x),
    }
}

fn match_create_at(s: &Vec<char>, i: usize) -> (r: Option<(usize, usize, usize)>)
    requires
        i <= s@.len(),
    ensures
        match r {
            Some(t) => spec_match_create_at(s@, i as int) == Some(
                (t.0 as int, t.1 as int, t.2 as int),
            ) && i <= t.0 < t.1 <= t.2 <= s@.len(),
            None => spec_match_create_at(s@, i as int) is None,
        },
{
    match kw_at(s, i, &to_chars("create")) {
        Some(a) => match plus_ws(s, a) {
            Some(b) => {
                let with_a = match kw_at(s, b, &to_chars("a")) {
                    Some(c0) => match plus_ws(s, c0) {
                        Some(c) => create_rest1(s, c),
                        None => None,
                    },
                    None => None,
                };
                match with_a {
                    Some(t) => Some(t),
                    None => create_rest1(s, b),
                }
            },
            None => None,
        },
        None => None,
    }
}

/// `save`, optional `to`, the target (no `file` keyword).
pub open spec fn spec_match_save_at(s: Seq<char>, i: int) -> Option<(int, int, int)> {
    match spec_kw(s, i, "save"@) {
        Some(a) => match spec_plus_ws(s, a) {
            Some(b) => spec_opt_word_then(
                s,
                b,
                "to"@,
                |s2: Seq<char>, x: int| spec_file_target(s2, x),
            ),
            None => None,
        },
        None => None,
    }
}

fn match_save_at(s: &Vec<char>, i: usize) -> (r: Option<(usize, usize, usize)>)
    requires
        i <= s@.len(),
    ensures
        match r {
            Some(t) => spec_match_save_at(s@, i as int) == Some(
                (t.0 as int, t.1 as int, t.2 as int),
            ) && i <= t.0 < t.1 <= t.2 <= s@.len(),
            None => spec_match_save_at(s@, i as int) is None,
        },
{
    match kw_at(s, i, &to_chars("save")) {
        Some(a) => match plus_ws(s, a) {
            Some(b) => {
                let with_to = match kw_at(s, b, &to_chars("to")) {
                    Some(c0) => match plus_ws(s, c0) {
                        Some(c) => file_target(s, c),
                        None => None,
                    },
                    None => None,
                };
                match with_to {
                    Some(t) => Some(t),
                    None => file_target(s, b),
                }
            },
            None => None,
        },
        None => None,
    }
}

/// `list`, optional `the`, optional `files in`, optional `directory`, the
/// target.
pub open spec fn spec_list_rest2(s: Seq<char>, x: int) -> Option<(int, int, int)> {
    spec_opt_word_then(s, x, "directory"@, |s2: Seq<char>, y: int| spec_file_target(s2, y))
}

pub open spec fn spec_list_rest1(s: Seq<char>, x: int) -> Option<(int, int, int)> {
    let with_files_in = match spec_kw(s, x, "files"@) {
        Some(f1) => match spec_plus_ws(s, f1) {
            Some(f2) => match spec_kw(s, f2, "in"@) {
                Some(f3) => match spec_plus_ws(s, f3) {
                    Some(f4) => spec_list_rest2(s, f4),
                    None => None,
                },
                None => None,
            },
            None => None,
        },
        None => None,
    };
    if with_files_in is Some {
        with_files_in
    } else {
        spec_list_rest2(s, x)
    }
}

pub open spec fn spec_match_list_at(s: Seq<char>, i: int) -> Option<(int, int, int)> {
    match spec_kw(s, i, "list"@) {
        Some(a) => match spec_plus_ws(s, a) {
            Some(b) => spec_opt_word_then(
                s,
                b,
                "the"@,
                |s2: Seq<char>, x: int| spec_list_rest1(s2, x),
            ),
            None => None,
        },
        None => None,
    }
}

fn list_rest2(s: &Vec<char>, x: usize) -> (r: Option<(usize, usize, usize)>)
    requires
        x <= s@.len(),
    ensures
        match r {
            Some(t) => spec_list_rest2(s@, x as int) == Some((t.0 as int, t.1 as int, t.2 as int))
                && x <= t.0 < t.1 <= t.2 <= s@.len(),
            None => spec_list_rest2(s@, x as int) is None,
        },
{
    let with_dir = match kw_at(s, x, &to_chars("directory")) {
        Some(c0) => match plus_ws(s, c0) {
            Some(c) => file_target(s, c),
            None => None,
        },
        None => None,
    };
    match with_dir {
        Some(t) => Some(t),
        None => file_target(s, x),
    }
}

fn list_rest1(s: &Vec<char>, x: usize) -> (r: Option<(usize, usize, usize)>)
    requires
        x <= s@.len(),
    ensures
        match r {
            Some(t) => spec_list_rest1(s@, x as int) == Some((t.0 as int, t.1 as int, t.2 as int))
                && x <= t.0 < t.1 <= t.2 <= s@.len(),
            None => spec_list_rest1(s@, x as int) is None,
        },
{
    let with_files_in = match kw_at(s, x, &to_chars("files")) {
        Some(f1) => match plus_ws(s, f1) {
            Some(f2) => match kw_at(s, f2, &to_chars("in")) {
                Some(f3) => match plus_ws(s, f3) {
                    Some(f4) => list_rest2(s, f4),
                    None => None,
                },
                None => None,
            },
            None => None,
        },
        None => None,
    };
    match with_files_in {
        Some(t) => Some(t),
        None => list_rest2(s, x),
    }
}

fn match_list_at(s: &Vec<char>, i: usize) -> (r: Option<(usize, usize, usize)>)
    requires
        i <= s@.len(),
    ensures
        match r {
            Some(t) => spec_match_list_at(s@, i as int) == Some(
                (t.0 as int, t.1 as int, t.2 as int),
            ) && i <= t.0 < t.1 <= t.2 <= s@.len(),
            None => spec_match_list_at(s@, i as int) is None,
        },
{
    match kw_at(s, i, &to_chars("list")) {
        Some(a) => match plus_ws(s, a) {
            Some(b) => {
                let with_the = match kw_at(s, b, &to_chars("the")) {
                    Some(c0) => match plus_ws(s, c0) {
                        Some(c) => list_rest1(s, c),
                        None => None,
                    },
                    None => None,
                };
                match with_the {
                    Some(t) => Some(t),
                    None => list_rest1(s, b),
                }
            },
            None => None,
        },
        None => None,
    }
}

/// `execute` or `run`, then the command target (spaces allowed).
pub open spec fn spec_match_cmd_at(s: Seq<char>, i: int, verb: Seq<char>) -> Option<
    (int, int, int),
> {
    match spec_kw(s, i, verb) {
        Some(a) => match spec_plus_ws(s, a) {
            Some(b) => spec_cmd_target(s, b),
            None => None,
        },
        None => None,
    }
}

fn match_cmd_at(s: &Vec<char>, i: usize, verb: &Vec<char>) -> (r: Option<(usize, usize, usize)>)
    requires
        i <= s@.len(),
    ensures
        match r {
            Some(t) => spec_match_cmd_at(s@, i as int, verb@) == Some(
                (t.0 as int, t.1 as int, t.2 as int),
            ) && i <= t.0 < t.1 <= t.2 <= s@.len(),
            None => spec_match_cmd_at(s@, i as int, verb@) is None,
        },
{
    match kw_at(s, i, verb) {
        Some(a) => match plus_ws(s, a) {
            Some(b) => cmd_target(s, b),
            None => None,
        },
        None => None,
    }
}

/// The nine categories, in the order they are applied.
#[derive(Debug, Clone, Copy, PartialEq, Eq, Structural)]
pub enum Category {
    Read,
    Write,
    Create,
    Save,
    Delete,
    Remove,
    List,
    Execute,
    Run,
}

/// One category's matcher at one position.
pub open spec fn spec_match_at(s: Seq<char>, i: int, cat: Category) -> Option<(int, int, int)> {
    match cat {
        Category::Read => spec_match_verb_file_at(s, i, "read"@),
        Category::Write => spec_match_write_at(s, i),
        Category::Create => spec_match_create_at(s, i),
        Category::Save => spec_match_save_at(s, i),
        Category::Delete => spec_match_verb_file_at(s, i, "delete"@),
        Category::Remove => spec_match_verb_file_at(s, i, "remove"@),
        Category::List => spec_match_list_at(s, i),
        Category::Execute => spec_match_cmd_at(s, i, "execute"@),
        Category::Run => spec_match_cmd_at(s, i, "run"@),
    }
}

fn match_at(s: &Vec<char>, i: usize, cat: Category) -> (r: Option<(usize, usize, usize)>)
    requires
        i <= s@.len(),
    ensures
        match r {
            Some(t) => spec_match_at(s@, i as int, cat) == Some((t.0 as int, t.1 as int, t.2 as int))
                && i <= t.0 < t.1 <= t.2 <= s@.len(),
            None => spec_match_at(s@, i as int, cat) is None,
        },
{
    match cat {
        Category::Read => match_verb_file_at(s, i, &to_chars("read")),
        Category::Write => match_write_at(s, i),
        Category::Create => match_create_at(s, i),
        Category::Save => match_save_at(s, i),
        Category::Delete => match_verb_file_at(s, i, &to_chars("delete")),
        Category::Remove => match_verb_file_at(s, i, &to_chars("remove")),
        Category::List => match_list_at(s, i),
        Category::Execute => match_cmd_at(s, i, &to_chars("execute")),
        Category::Run => match_cmd_at(s, i, &to_chars("run")),
    }
}

/// Every match of one category over the text from `i` on, leftmost first
/// and non-overlapping: scanning resumes where a match ended.  Each element
/// is the target span of one match.
pub open spec fn spec_scan(s: Seq<char>, i: int, cat: Category) -> Seq<(int, int)>
    decreases s.len() - i,
{
    if i < 0 || i >= s.len() {
        Seq::empty()
    } else {
        match spec_match_at(s, i, cat) {
            Some(t) => if i < t.2 && t.2 <= s.len() {
                seq![(t.0, t.1)] + spec_scan(s, t.2, cat)
            } else {
                Seq::empty()
            },
            None => spec_scan(s, i + 1, cat),
        }
    }
}

/// All target spans of one category (`spec_scan`), exactly.
pub fn scan_category(s: &Vec<char>, from: usize, cat: Category) -> (r: Vec<(usize, usize)>)
    requires
        from <= s@.len(),
    ensures
        ({
            let m = spec_scan(s@, from as int, cat);
            &&& r@.len() == m.len()
            &&& forall|k: int|
                0 <= k < m.len() ==> (#[trigger] r@[k]).0 as int == m[k].0 && r@[k].1 as int
                    == m[k].1 && r@[k].0 <= r@[k].1 <= s@.len()
        }),
    decreases s@.len() - from,
{
    let mut j: usize = from;
    loop
        invariant
            from <= j <= s@.len(),
            spec_scan(s@, from as int, cat) == spec_scan(s@, j as int, cat),
        decreases s@.len() - j,
    {
        if j >= s.len() {
            return Vec::new();
        }
        match match_at(s, j, cat) {
            Some(t) => {
                let mut rest = scan_category(s, t.2, cat);
                rest.insert(0, (t.0, t.1));
                proof {
                    let m = spec_scan(s@, j as int, cat);
                    assert(m == seq![(t.0 as int, t.1 as int)] + spec_scan(s@, t.2 as int, cat));
                    assert(rest@[0] == (t.0, t.1));
                    assert forall|k: int| 0 <= k < m.len() implies (#[trigger] rest@[k]).0 as int
                        == m[k].0 && rest@[k].1 as int == m[k].1 && rest@[k].0 <= rest@[k].1
                        <= s@.len() by {
                        if k > 0 {
                            assert(rest@[k] == rest@.subrange(1, rest@.len() as int)[k - 1]);
                        }
                    }
                }
                return rest;
            },
            None => {
                j += 1;
            },
        }
    }
}

} // verus!
