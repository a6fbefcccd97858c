//! The action parser: one free-form message in, an ordered list of typed
//! actions out.  Two independent strategies are always attempted and their
//! findings concatenated: first the structured one (the first fenced block
//! of structured text that parses as actions), then the heuristic one (the
//! nine pattern categories, in order).  The parser never fails: unmatched
//! text yields no actions, overlapping patterns yield duplicates.

use vstd::prelude::*;
use vstd::string::*;
use crate::agent::{ActionModel, AgentAction, AgentExecutor, AgentResponse};
use crate::json::{actions_from_json_text, sp_actions};
use crate::patterns::{scan_category, spec_scan, Category};
use crate::text::{
    find_at, skip_ws, spec_find_at, spec_skip_ws, spec_trim, string_from_chars, subvec, to_chars,
    trim_chars, lemma_skip_ws_bounds,
};

verus! {

/// The end of a run of word characters (letters, digits, underscore).
pub open spec fn spec_word_end(s: Seq<char>, i: int) -> int
    decreases s.len() - i,
{
    if i < 0 || i >= s.len() || !(('0' <= s[i] && s[i] <= '9') || ('a' <= s[i] && s[i] <= 'z') || (
    'A' <= s[i] && s[i] <= 'Z') || s[i] == '_') {
        i
    } else {
        spec_word_end(s, i + 1)
    }
}

fn word_end(s: &Vec<char>, i: usize) -> (r: usize)
    requires
        i <= s@.len(),
    ensures
        r as int == spec_word_end(s@, i as int),
        i <= r <= s@.len(),
    decreases s@.len() - i,
{
    if i < s.len() && (('0' <= s[i] && s[i] <= '9') || ('a' <= s[i] && s[i] <= 'z') || ('A' <= s[i]
        && s[i] <= 'Z') || s[i] == '_') {
        word_end(s, i + 1)
    } else {
        i
    }
}

/// Whether a closing fence stands at `g`.
pub open spec fn spec_fence_at(s: Seq<char>, g: int) -> bool {
    g + 3 <= s.len() && s[g] == '`' && s[g + 1] == '`' && s[g + 2] == '`'
}

/// A block's content ends at the first position from `e` on where only
/// whitespace stands before a closing fence; the content itself may not
/// cross a line feed.  Returns the content's end and the position after the
/// closing fence.
pub open spec fn sp_block_end(s: Seq<char>, e: int) -> Option<(int, int)>
    decreases s.len() - e,
{
    if e < 0 || e > s.len() {
        None
    } else if spec_fence_at(s, spec_skip_ws(s, e)) {
        Some((e, spec_skip_ws(s, e) + 3))
    } else if e >= s.len() || s[e] == '\n' {
        None
    } else {
        sp_block_end(s, e + 1)
    }
}

pub proof fn lemma_block_end_bounds(s: Seq<char>, e: int)
    requires
        0 <= e <= s.len(),
        sp_block_end(s, e) is Some,
    ensures
        e <= (sp_block_end(s, e)->0).0,
        (sp_block_end(s, e)->0).0 <= (sp_block_end(s, e)->0).1 <= s.len(),
        (sp_block_end(s, e)->0).1 >= e + 3,
    decreases s.len() - e,
{
    lemma_skip_ws_bounds(s, e);
    if spec_fence_at(s, spec_skip_ws(s, e)) {
    } else if !(e >= s.len() || s[e] == '\n') {
        lemma_block_end_bounds(s, e + 1);
    }
}

fn block_end_from(s: &Vec<char>, e: usize) -> (r: Option<(usize, usize)>)
    requires
        e <= s@.len(),
    ensures
        match r {
            Some(t) => sp_block_end(s@, e as int) == Some((t.0 as int, t.1 as int)) && e <= t.0
                <= t.1 <= s@.len() && t.1 >= e + 3,
            None => sp_block_end(s@, e as int) is None,
        },
{
    let mut j: usize = e;
    loop
        invariant
            e <= j <= s@.len(),
            sp_block_end(s@, e as int) == sp_block_end(s@, j as int),
        decreases s@.len() - j,
    {
        let g = skip_ws(s, j);
        if s.len() - g >= 3 && s[g] == '`' && s[g + 1] == '`' && s[g + 2] == '`' {
            proof {
                lemma_block_end_bounds(s@, e as int);
            }
            return Some((j, g + 3));
        }
        if j >= s.len() || s[j] == '\n' {
            return None;
        }
        j += 1;
    }
}

/// A fenced block tagged as structured data, starting exactly at `i`: the
/// content's span and the position after the closing fence.
pub open spec fn sp_json_block_at(s: Seq<char>, i: int) -> Option<(int, int, int)> {
    if 0 <= i && i + 7 <= s.len() && s[i] == '`' && s[i + 1] == '`' && s[i + 2] == '`' && s[i + 3]
        == 'j' && s[i + 4] == 's' && s[i + 5] == 'o' && s[i + 6] == 'n' {
        let c = spec_skip_ws(s, i + 7);
        match sp_block_end(s, c) {
            Some((e, end)) => Some((c, e, end)),
            None => None,
        }
    } else {
        None
    }
}

fn json_block_at(s: &Vec<char>, i: usize) -> (r: Option<(usize, usize, usize)>)
    requires
        i <= s@.len(),
    ensures
        match r {
            Some(t) => sp_json_block_at(s@, i as int) == Some((t.0 as int, t.1 as int, t.2 as int))
                && i < t.0 <= t.1 <= t.2 <= s@.len(),
            None => sp_json_block_at(s@, i as int) is None,
        },
{
    if s.len() - i >= 7 && s[i] == '`' && s[i + 1] == '`' && s[i + 2] == '`' && s[i + 3] == 'j'
        && s[i + 4] == 's' && s[i + 5] == 'o' && s[i + 6] == 'n' {
        let c = skip_ws(s, i + 7);
        match block_end_from(s, c) {
            Some(t) => Some((c, t.0, t.1)),
            None => None,
        }
    } else {
        None
    }
}

/// Any fenced block (an optional language word after the fence), starting
/// exactly at `i`.
pub open spec fn sp_code_block_at(s: Seq<char>, i: int) -> Option<(int, int, int)> {
    if 0 <= i && i + 3 <= s.len() && s[i] == '`' && s[i + 1] == '`' && s[i + 2] == '`' {
        let b = spec_word_end(s, i + 3);
        let c = spec_skip_ws(s, b);
        match sp_block_end(s, c) {
            Some((e, end)) => Some((c, e, end)),
            None => None,
        }
    } else {
        None
    }
}

fn code_block_at(s: &Vec<char>, i: usize) -> (r: Option<(usize, usize, usize)>)
    requires
        i <= s@.len(),
    ensures
        match r {
            Some(t) => sp_code_block_at(s@, i as int) == Some((t.0 as int, t.1 as int, t.2 as int))
                && i < t.0 <= t.1 <= t.2 <= s@.len(),
            None => sp_code_block_at(s@, i as int) is None,
        },
{
    if s.len() - i >= 3 && s[i] == '`' && s[i + 1] == '`' && s[i + 2] == '`' {
        let b = word_end(s, i + 3);
        let c = skip_ws(s, b);
        match block_end_from(s, c) {
            Some(t) => Some((c, t.0, t.1)),
            None => None,
        }
    } else {
        None
    }
}

/// The structured strategy: scan for tagged fenced blocks, left to right
/// and non-overlapping; the first block whose content parses as actions
/// decides, and later blocks are never inspected.
pub open spec fn sp_extract_json_from(s: Seq<char>, i: int) -> Option<Seq<ActionModel>>
    decreases s.len() - i,
{
    if i < 0 || i >= s.len() {
        None
    } else {
        match sp_json_block_at(s, i) {
            Some((lo, hi, end)) => if i < end && end <= s.len() && lo <= hi <= s.len() {
                match sp_actions(s.subrange(lo, hi)) {
                    Some(l) => Some(l),
                    None => sp_extract_json_from(s, end),
                }
            } else {
                None
            },
            None => sp_extract_json_from(s, i + 1),
        }
    }
}

pub open spec fn sp_extract_json(s: Seq<char>) -> Option<Seq<ActionModel>> {
    sp_extract_json_from(s, 0)
}

fn extract_json_actions(s: &Vec<char>) -> (r: Option<Vec<AgentAction>>)
    ensures
        ({
            let m = sp_extract_json(s@);
            match r {
                Some(acts) => m matches Some(l) && acts@.len() == l.len() && (forall|k: int|
                    0 <= k < l.len() ==> (#[trigger] acts@[k])@ == l[k]),
                None => m is None,
            }
        }),
{
    let mut i: usize = 0;
    loop
        invariant
            i <= s@.len(),
            sp_extract_json(s@) == sp_extract_json_from(s@, i as int),
        decreases s@.len() - i,
    {
        if i >= s.len() {
            return None;
        }
        match json_block_at(s, i) {
            Some(t) => {
                let content = subvec(s, t.0, t.1);
                match actions_from_json_text(&content) {
                    Some(acts) => {
                        return Some(acts);
                    },
                    None => {
                        i = t.2;
                    },
                }
            },
            None => {
                i += 1;
            },
        }
    }
}

/// The fixed text a write action carries when no code block stands near the
/// file name.
pub open spec fn spec_placeholder() -> Seq<char> {
    "// TODO: Add content"@
}

/// The first fenced block (of any language) whose start lies within 500
/// characters of `fpos`, scanning blocks left to right, non-overlapping.
pub open spec fn sp_block_near(s: Seq<char>, i: int, fpos: int) -> Option<Seq<char>>
    decreases s.len() - i,
{
    if i < 0 || i >= s.len() {
        None
    } else {
        match sp_code_block_at(s, i) {
            Some((lo, hi, end)) => if i < end && end <= s.len() && lo <= hi <= s.len() {
                if (if i >= fpos {
                    i - fpos
                } else {
                    fpos - i
                }) < 500 {
                    Some(s.subrange(lo, hi))
                } else {
                    sp_block_near(s, end, fpos)
                }
            } else {
                None
            },
            None => sp_block_near(s, i + 1, fpos),
        }
    }
}

/// The content a write action gets: the text of the first code block
/// within 500 characters of the file name's first occurrence, or the fixed
/// placeholder.
pub open spec fn sp_content_for(s: Seq<char>, filename: Seq<char>) -> Seq<char> {
    match spec_find_at(s, 0, filename) {
        None => spec_placeholder(),
        Some(fpos) => match sp_block_near(s, 0, fpos) {
            Some(c) => c,
            None => spec_placeholder(),
        },
    }
}

fn content_for(s: &Vec<char>, filename: &Vec<char>) -> (r: String)
    ensures
        r@ == sp_content_for(s@, filename@),
{
    match find_at(s, 0, filename) {
        None => String::from_str("// TODO: Add content"),
        Some(fpos) => {
            let mut i: usize = 0;
            loop
                invariant
                    i <= s@.len(),
                    spec_find_at(s@, 0, filename@) == Some(fpos as int),
                    sp_block_near(s@, 0, fpos as int) == sp_block_near(s@, i as int, fpos as int),
                decreases s@.len() - i,
            {
                if i >= s.len() {
                    return String::from_str("// TODO: Add content");
                }
                match code_block_at(s, i) {
                    Some(t) => {
                        let near = if i >= fpos {
                            i - fpos < 500
                        } else {
                            fpos - i < 500
                        };
                        if near {
                            return string_from_chars(&subvec(s, t.0, t.1));
                        }
                        i = t.2;
                    },
                    None => {
                        i += 1;
                    },
                }
            }
        },
    }
}

/// The actions one heuristic category contributes: one action per match,
/// its target trimmed of surrounding whitespace; a write action's content
/// comes from the proximity rule.
pub open spec fn sp_actions_of_cat(s: Seq<char>, cat: Category) -> Seq<ActionModel> {
    spec_scan(s, 0, cat).map_values(
        |sp: (int, int)|
            {
                let target = spec_trim(s.subrange(sp.0, sp.1));
                match cat {
                    Category::Read => ActionModel::Read { path: target },
                    Category::Write => ActionModel::Write {
                        path: target,
                        content: sp_content_for(s, target),
                    },
                    Category::Create => ActionModel::Write {
                        path: target,
                        content: sp_content_for(s, target),
                    },
                    Category::Save => ActionModel::Write {
                        path: target,
                        content: sp_content_for(s, target),
                    },
                    Category::Delete => ActionModel::Delete { path: target },
                    Category::Remove => ActionModel::Delete { path: target },
                    Category::List => ActionModel::List { path: target },
                    Category::Execute => ActionModel::Execute {
                        command: target,
                        working_dir: None,
                    },
                    Category::Run => ActionModel::Execute { command: target, working_dir: None },
                }
            },
    )
}

fn actions_of_category(s: &Vec<char>, cat: Category) -> (r: Vec<AgentAction>)
    ensures
        ({
            let m = sp_actions_of_cat(s@, cat);
            r@.len() == m.len() && (forall|k: int|
                0 <= k < m.len() ==> (#[trigger] r@[k])@ == m[k])
        }),
{
    let ghost m = sp_actions_of_cat(s@, cat);
    let spans = scan_category(s, 0, cat);
    let mut out: Vec<AgentAction> = Vec::new();
    let mut idx: usize = 0;
    while idx < spans.len()
        invariant
            idx <= spans@.len(),
            m == sp_actions_of_cat(s@, cat),
            m.len() == spans@.len(),
            spans@.len() == spec_scan(s@, 0, cat).len(),
            forall|k: int|
                0 <= k < spans@.len() ==> (#[trigger] spans@[k]).0 as int == spec_scan(
                    s@,
                    0,
                    cat,
                )[k].0 && spans@[k].1 as int == spec_scan(s@, 0, cat)[k].1 && spans@[k].0
                    <= spans@[k].1 <= s@.len(),
            out@.len() == idx,
            forall|k: int| 0 <= k < idx ==> (#[trigger] out@[k])@ == m[k],
        decreases spans@.len() - idx,
    {
        let lo = spans[idx].0;
        let hi = spans[idx].1;
        let target = trim_chars(&subvec(s, lo, hi));
        let act = match cat {
            Category::Read => AgentAction::ReadFile { path: string_from_chars(&target) },
            Category::Write => AgentAction::WriteFile {
                path: string_from_chars(&target),
                content: content_for(s, &target),
            },
            Category::Create => AgentAction::WriteFile {
                path: string_from_chars(&target),
                content: content_for(s, &target),
            },
            Category::Save => AgentAction::WriteFile {
                path: string_from_chars(&target),
                content: content_for(s, &target),
            },
            Category::Delete => AgentAction::DeleteFile { path: string_from_chars(&target) },
            Category::Remove => AgentAction::DeleteFile { path: string_from_chars(&target) },
            Category::List => AgentAction::ListDirectory { path: string_from_chars(&target) },
            Category::Execute => AgentAction::ExecuteCommand {
                command: string_from_chars(&target),
                working_dir: None,
            },
            Category::Run => AgentAction::ExecuteCommand {
                command: string_from_chars(&target),
                working_dir: None,
            },
        };
        out.push(act);
        idx += 1;
    }
    out
}

/// What the whole parse yields: the structured strategy's findings (or
/// nothing), then every heuristic category's findings, in category order.
#[verifier::opaque]
pub open spec fn sp_parse(s: Seq<char>) -> Seq<ActionModel> {
    (match sp_extract_json(s) {
        Some(l) => l,
        None => Seq::empty(),
    }) + sp_actions_of_cat(s, Category::Read) + sp_actions_of_cat(s, Category::Write)
        + sp_actions_of_cat(s, Category::Create) + sp_actions_of_cat(s, Category::Save)
        + sp_actions_of_cat(s, Category::Delete) + sp_actions_of_cat(s, Category::Remove)
        + sp_actions_of_cat(s, Category::List) + sp_actions_of_cat(s, Category::Execute)
        + sp_actions_of_cat(s, Category::Run)
}

/// The action parser.
pub struct AgentActionParser;

impl AgentActionParser {
    /// Extracts every action the message asks for (`sp_parse`), exactly:
    /// the first parsable structured block's actions first, then each
    /// heuristic category's matches, in order.
    pub fn parse_agent_response(response: &str) -> (r: Vec<AgentAction>)
        ensures
            r@.len() == sp_parse(response@).len(),
            forall|k: int|
                0 <= k < r@.len() ==> (#[trigger] r@[k])@ == sp_parse(response@)[k],
    {
        proof {
            reveal(sp_parse);
        }
        let s = to_chars(response);
        let mut out: Vec<AgentAction> = Vec::new();
        match extract_json_actions(&s) {
            Some(mut acts) => {
                out.append(&mut acts);
            },
            None => {},
        }
        let mut part = actions_of_category(&s, Category::Read);
        out.append(&mut part);
        let mut part = actions_of_category(&s, Category::Write);
        out.append(&mut part);
        let mut part = actions_of_category(&s, Category::Create);
        out.append(&mut part);
        let mut part = actions_of_category(&s, Category::Save);
        out.append(&mut part);
        let mut part = actions_of_category(&s, Category::Delete);
        out.append(&mut part);
        let mut part = actions_of_category(&s, Category::Remove);
        out.append(&mut part);
        let mut part = actions_of_category(&s, Category::List);
        out.append(&mut part);
        let mut part = actions_of_category(&s, Category::Execute);
        out.append(&mut part);
        let mut part = actions_of_category(&s, Category::Run);
        out.append(&mut part);
        out
    }
}

/// Runs one whole message: parse, then execute each action in order.  A
/// batch of N actions always yields exactly N responses, in the same
/// order; one action's failure never stops its siblings.
#[verifier::rlimit(60)]
pub fn process_agent_message<E: AgentExecutor>(message: &str, executor: &mut E) -> (r: Vec<
    AgentResponse,
>)
    ensures
        r@.len() == sp_parse(message@).len(),
{
    let actions = AgentActionParser::parse_agent_response(message);
    let count: usize = actions.len();
    let ghost n = actions@.len();
    let mut responses: Vec<AgentResponse> = Vec::new();
    let mut i: usize = 0;
    let mut remaining = actions;
    let mut taken: usize = 0;
    while remaining.len() > 0
        invariant
            n == count,
            taken + remaining@.len() == n,
            responses@.len() == taken,
        decreases remaining@.len(),
    {
        let action = remaining.remove(0);
        let response = executor.execute_action(action);
        responses.push(response);
        taken += 1;
    }
    responses
}

} // verus!
