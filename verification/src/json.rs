//! The structured half of the parser reads fenced blocks of
//! structured-data text.  This module parses that text: a standard value
//! grammar (null, booleans, numbers, strings with escapes, arrays,
//! objects), and the conversion of a parsed value into actions — an action
//! is an object with exactly one key, the kind's name, whose value is an
//! object holding the kind's fields; unknown fields are ignored, optional
//! fields may be absent or null.

use vstd::prelude::*;
use crate::agent::{ActionModel, AgentAction};
use crate::text::{
    char_from_code, skip_ws, spec_skip_ws, lemma_skip_ws_bounds, string_from_chars, to_chars,
};

verus! {

/// A parsed structured value.  Numeric content never reaches an action, so
/// a number's text is not kept.
pub enum JsonValue {
    Null,
    Bool(bool),
    Num,
    Str(Vec<char>),
    Arr(Vec<JsonValue>),
    Obj(Vec<(Vec<char>, JsonValue)>),
}

/// The mathematical model of a parsed value.
pub enum JsonModel {
    Null,
    Bool(bool),
    Num,
    Str(Seq<char>),
    Arr(Seq<JsonModel>),
    Obj(Seq<(Seq<char>, JsonModel)>),
}

pub open spec fn json_view(v: JsonValue) -> JsonModel
    decreases v,
{
    match v {
        JsonValue::Null => JsonModel::Null,
        JsonValue::Bool(b) => JsonModel::Bool(b),
        JsonValue::Num => JsonModel::Num,
        JsonValue::Str(s) => JsonModel::Str(s@),
        JsonValue::Arr(items) => JsonModel::Arr(json_views(items@)),
        JsonValue::Obj(fields) => JsonModel::Obj(json_field_views(fields@)),
    }
}

pub open spec fn json_views(items: Seq<JsonValue>) -> Seq<JsonModel>
    decreases items,
{
    if items.len() == 0 {
        Seq::empty()
    } else {
        seq![json_view(items[0])] + json_views(items.drop_first())
    }
}

pub open spec fn json_field_views(fields: Seq<(Vec<char>, JsonValue)>) -> Seq<
    (Seq<char>, JsonModel),
>
    decreases fields,
{
    if fields.len() == 0 {
        Seq::empty()
    } else {
        seq![(fields[0].0@, json_view(fields[0].1))] + json_field_views(fields.drop_first())
    }
}

/// The value of a hexadecimal digit, or `-1`.
pub open spec fn spec_hexv(c: char) -> int {
    if '0' <= c && c <= '9' {
        c as int - 48
    } else if 'a' <= c && c <= 'f' {
        c as int - 87
    } else if 'A' <= c && c <= 'F' {
        c as int - 55
    } else {
        -1
    }
}

fn hexv(c: char) -> (r: i8)
    ensures
        r as int == spec_hexv(c),
{
    if '0' <= c && c <= '9' {
        ((c as u32) as i8) - 48
    } else if 'a' <= c && c <= 'f' {
        ((c as u32) as i8) - 87
    } else if 'A' <= c && c <= 'F' {
        ((c as u32) as i8) - 55
    } else {
        -1
    }
}

/// The end of a run of decimal digits.
pub open spec fn spec_digits_end(s: Seq<char>, i: int) -> int
    decreases s.len() - i,
{
    if i < 0 || i >= s.len() || !('0' <= s[i] && s[i] <= '9') {
        i
    } else {
        spec_digits_end(s, i + 1)
    }
}

pub proof fn lemma_digits_end_bounds(s: Seq<char>, i: int)
    requires
        0 <= i <= s.len(),
    ensures
        i <= spec_digits_end(s, i) <= s.len(),
    decreases s.len() - i,
{
    if !(i >= s.len() || !('0' <= s[i] && s[i] <= '9')) {
        lemma_digits_end_bounds(s, i + 1);
    }
}

fn digits_end(s: &Vec<char>, i: usize) -> (r: usize)
    requires
        i <= s@.len(),
    ensures
        r as int == spec_digits_end(s@, i as int),
        i <= r <= s@.len(),
    decreases s@.len() - i,
{
    if i < s.len() && '0' <= s[i] && s[i] <= '9' {
        digits_end(s, i + 1)
    } else {
        i
    }
}

/// The end of a number starting at `i`: an optional sign, an integer part
/// with no leading zero, an optional fraction, an optional exponent.
pub open spec fn sp_number_end(s: Seq<char>, i: int) -> Option<int> {
    if i < 0 || i >= s.len() {
        None
    } else {
        let a = if s[i] == '-' {
            i + 1
        } else {
            i
        };
        if !(a < s.len() && '0' <= s[a] && s[a] <= '9') {
            None
        } else {
            let b = if s[a] == '0' {
                a + 1
            } else {
                spec_digits_end(s, a)
            };
            let d = if b < s.len() && s[b] == '.' {
                if spec_digits_end(s, b + 1) == b + 1 {
                    -1
                } else {
                    spec_digits_end(s, b + 1)
                }
            } else {
                b
            };
            if d < 0 {
                None
            } else if d < s.len() && (s[d] == 'e' || s[d] == 'E') {
                let e0 = if d + 1 < s.len() && (s[d + 1] == '+' || s[d + 1] == '-') {
                    d + 2
                } else {
                    d + 1
                };
                if e0 <= s.len() && spec_digits_end(s, e0) > e0 {
                    Some(spec_digits_end(s, e0))
                } else {
                    None
                }
            } else {
                Some(d)
            }
        }
    }
}

pub proof fn lemma_number_end_bounds(s: Seq<char>, i: int)
    requires
        0 <= i <= s.len(),
        sp_number_end(s, i) is Some,
    ensures
        i < sp_number_end(s, i)->0 <= s.len(),
{
    let a = if s[i] == '-' {
        i + 1
    } else {
        i
    };
    lemma_digits_end_bounds(s, a);
    if a < s.len() && '0' <= s[a] && s[a] <= '9' {
        lemma_digits_end_bounds(s, a + 1);
    }
    let b = if s[a] == '0' {
        a + 1
    } else {
        spec_digits_end(s, a)
    };
    if b < s.len() && s[b] == '.' {
        lemma_digits_end_bounds(s, b + 1);
    }
    let d = if b < s.len() && s[b] == '.' {
        if spec_digits_end(s, b + 1) == b + 1 {
            -1
        } else {
            spec_digits_end(s, b + 1)
        }
    } else {
        b
    };
    if 0 <= d && d < s.len() && (s[d] == 'e' || s[d] == 'E') {
        let e0 = if d + 1 < s.len() && (s[d + 1] == '+' || s[d + 1] == '-') {
            d + 2
        } else {
            d + 1
        };
        if e0 <= s.len() {
            lemma_digits_end_bounds(s, e0);
        }
    }
}

fn number_end(s: &Vec<char>, i: usize) -> (r: Option<usize>)
    requires
        i <= s@.len(),
    ensures
        match r {
            Some(e) => sp_number_end(s@, i as int) == Some(e as int) && i < e <= s@.len(),
            None => sp_number_end(s@, i as int) is None,
        },
{
    if i >= s.len() {
        return None;
    }
    let a = if s[i] == '-' {
        i + 1
    } else {
        i
    };
    if !(a < s.len() && '0' <= s[a] && s[a] <= '9') {
        return None;
    }
    let b = if s[a] == '0' {
        a + 1
    } else {
        digits_end(s, a)
    };
    let d_opt: Option<usize> = if b < s.len() && s[b] == '.' {
        let de = digits_end(s, b + 1);
        if de == b + 1 {
            None
        } else {
            Some(de)
        }
    } else {
        Some(b)
    };
    match d_opt {
        None => None,
        Some(d) => {
            if d < s.len() && (s[d] == 'e' || s[d] == 'E') {
                let e0 = if d + 1 < s.len() && (s[d + 1] == '+' || s[d + 1] == '-') {
                    d + 2
                } else {
                    d + 1
                };
                let ee = digits_end(s, e0);
                if ee > e0 {
                    proof {
                        lemma_number_end_bounds(s@, i as int);
                    }
                    Some(ee)
                } else {
                    None
                }
            } else {
                proof {
                    lemma_number_end_bounds(s@, i as int);
                }
                Some(d)
            }
        },
    }
}

/// The body of a quoted string starting just after the opening quote: the
/// decoded characters and the position after the closing quote.  Escapes
/// follow the structured-data convention, including four-digit scalar
/// escapes and surrogate pairs; unescaped control characters are refused.
pub open spec fn sp_string_body(s: Seq<char>, i: int) -> Option<(Seq<char>, int)>
    decreases s.len() - i, 1int,
{
    if i < 0 || i >= s.len() {
        None
    } else if s[i] == '"' {
        Some((Seq::empty(), i + 1))
    } else if s[i] == '\\' {
        if i + 1 >= s.len() {
            None
        } else {
            let e = s[i + 1];
            if e == 'u' {
                sp_unicode_escape(s, i)
            } else {
                let decoded: Option<char> = if e == '"' {
                    Some('"')
                } else if e == '\\' {
                    Some('\\')
                } else if e == '/' {
                    Some('/')
                } else if e == 'b' {
                    Some('\u{8}')
                } else if e == 'f' {
                    Some('\u{C}')
                } else if e == 'n' {
                    Some('\n')
                } else if e == 'r' {
                    Some('\r')
                } else if e == 't' {
                    Some('\t')
                } else {
                    None
                };
                match decoded {
                    None => None,
                    Some(c) => match sp_string_body(s, i + 2) {
                        Some((rest, j)) => Some((seq![c] + rest, j)),
                        None => None,
                    },
                }
            }
        }
    } else if (s[i] as u32) < 32 {
        None
    } else {
        match sp_string_body(s, i + 1) {
            Some((rest, j)) => Some((seq![s[i]] + rest, j)),
            None => None,
        }
    }
}

/// The four hexadecimal digits after `\u` at `i`, as a value, or `-1`.
pub open spec fn spec_hex4(s: Seq<char>, i: int) -> int {
    if i + 4 <= s.len() && spec_hexv(s[i]) >= 0 && spec_hexv(s[i + 1]) >= 0 && spec_hexv(s[i + 2])
        >= 0 && spec_hexv(s[i + 3]) >= 0 {
        spec_hexv(s[i]) * 4096 + spec_hexv(s[i + 1]) * 256 + spec_hexv(s[i + 2]) * 16 + spec_hexv(
            s[i + 3],
        )
    } else {
        -1
    }
}

/// A `\u` escape at `i` (where `s[i] == '\\'` and `s[i+1] == 'u'`): a plain
/// scalar, or a surrogate pair spanning a second `\u` escape.
pub open spec fn sp_unicode_escape(s: Seq<char>, i: int) -> Option<(Seq<char>, int)>
    decreases s.len() - i, 0int,
{
    let h = spec_hex4(s, i + 2);
    if h < 0 {
        None
    } else if 0xD800 <= h && h <= 0xDBFF {
        if i + 8 + 4 <= s.len() && s[i + 6] == '\\' && s[i + 7] == 'u' {
            let l = spec_hex4(s, i + 8);
            if 0xDC00 <= l && l <= 0xDFFF {
                let code = 0x10000 + (h - 0xD800) * 0x400 + (l - 0xDC00);
                match sp_string_body(s, i + 12) {
                    Some((rest, j)) => Some((seq![((code as u32) as char)] + rest, j)),
                    None => None,
                }
            } else {
                None
            }
        } else {
            None
        }
    } else if 0xDC00 <= h && h <= 0xDFFF {
        None
    } else {
        match sp_string_body(s, i + 6) {
            Some((rest, j)) => Some((seq![((h as u32) as char)] + rest, j)),
            None => None,
        }
    }
}

pub proof fn lemma_string_body_bounds(s: Seq<char>, i: int)
    requires
        sp_string_body(s, i) is Some,
    ensures
        i < (sp_string_body(s, i)->0).1 <= s.len(),
    decreases s.len() - i,
{
    if 0 <= i && i < s.len() {
        if s[i] == '"' {
        } else if s[i] == '\\' {
            if i + 1 < s.len() {
                let e = s[i + 1];
                if e == 'u' {
                    assert(sp_string_body(s, i) == sp_unicode_escape(s, i));
                    let h = spec_hex4(s, i + 2);
                    if h >= 0 && 0xD800 <= h && h <= 0xDBFF {
                        if s.len() - i >= 12 && s[i + 6] == '\\' && s[i + 7] == 'u' {
                            let l = spec_hex4(s, i + 8);
                            if 0xDC00 <= l && l <= 0xDFFF && sp_string_body(s, i + 12) is Some {
                                lemma_string_body_bounds(s, i + 12);
                            }
                        }
                    } else if h >= 0 && !(0xDC00 <= h && h <= 0xDFFF) && sp_string_body(s, i + 6)
                        is Some {
                        lemma_string_body_bounds(s, i + 6);
                    }
                } else {
                    if sp_string_body(s, i + 2) is Some {
                        lemma_string_body_bounds(s, i + 2);
                    }
                }
            }
        } else {
            if sp_string_body(s, i + 1) is Some {
                lemma_string_body_bounds(s, i + 1);
            }
        }
    }
}

fn hex4(s: &Vec<char>, i: usize) -> (r: Option<u32>)
    requires
        i <= s@.len(),
    ensures
        match r {
            Some(h) => spec_hex4(s@, i as int) == h as int && h <= 0xFFFF,
            None => spec_hex4(s@, i as int) < 0,
        },
{
    if s.len() < 4 || i > s.len() - 4 {
        return None;
    }
    let a = hexv(s[i]);
    let b = hexv(s[i + 1]);
    let c = hexv(s[i + 2]);
    let d = hexv(s[i + 3]);
    if a >= 0 && b >= 0 && c >= 0 && d >= 0 {
        Some((a as u32) * 4096 + (b as u32) * 256 + (c as u32) * 16 + (d as u32))
    } else {
        None
    }
}

fn string_body(s: &Vec<char>, i: usize) -> (r: Option<(Vec<char>, usize)>)
    requires
        i <= s@.len(),
    ensures
        match r {
            Some(t) => sp_string_body(s@, i as int) == Some((t.0@, t.1 as int)) && i < t.1
                <= s@.len(),
            None => sp_string_body(s@, i as int) is None,
        },
    decreases s@.len() - i,
{
    if i >= s.len() {
        return None;
    }
    let c = s[i];
    if c == '"' {
        return Some((Vec::new(), i + 1));
    }
    if c == '\\' {
        if i + 1 >= s.len() {
            return None;
        }
        let e = s[i + 1];
        if e == 'u' {
            proof {
                assert(sp_string_body(s@, i as int) == sp_unicode_escape(s@, i as int));
            }
            match hex4(s, i + 2) {
                None => return None,
                Some(h) => {
                    if 0xD800 <= h && h <= 0xDBFF {
                        if s.len() - i >= 12 && s[i + 6] == '\\' && s[i + 7] == 'u' {
                            match hex4(s, i + 8) {
                                Some(l) => {
                                    if 0xDC00 <= l && l <= 0xDFFF {
                                        let code: u32 = 0x10000 + (h - 0xD800) * 0x400 + (l
                                            - 0xDC00);
                                        let ch = char_from_code(code);
                                        proof {
                                            vstd::utf8::char_u32_cast(ch, code);
                                        }
                                        match string_body(s, i + 12) {
                                            Some(t) => {
                                                let mut out = t.0;
                                                let ghost rest = out@;
                                                out.insert(0, ch);
                                                proof {
                                                    assert(out@ =~= seq![ch] + rest);
                                                }
                                                return Some((out, t.1));
                                            },
                                            None => return None,
                                        }
                                    } else {
                                        return None;
                                    }
                                },
                                None => {
                                    return None;
                                },
                            }
                        } else {
                            return None;
                        }
                    } else if 0xDC00 <= h && h <= 0xDFFF {
                        return None;
                    } else {
                        let ch = char_from_code(h);
                        proof {
                            vstd::utf8::char_u32_cast(ch, h);
                        }
                        match string_body(s, i + 6) {
                            Some(t) => {
                                let mut out = t.0;
                                let ghost rest = out@;
                                out.insert(0, ch);
                                proof {
                                    assert(out@ =~= seq![ch] + rest);
                                }
                                return Some((out, t.1));
                            },
                            None => return None,
                        }
                    }
                },
            }
        }
        let decoded: Option<char> = if e == '"' {
            Some('"')
        } else if e == '\\' {
            Some('\\')
        } else if e == '/' {
            Some('/')
        } else if e == 'b' {
            Some('\u{8}')
        } else if e == 'f' {
            Some('\u{C}')
        } else if e == 'n' {
            Some('\n')
        } else if e == 'r' {
            Some('\r')
        } else if e == 't' {
            Some('\t')
        } else {
            None
        };
        match decoded {
            None => return None,
            Some(dc) => match string_body(s, i + 2) {
                Some(t) => {
                    let mut out = t.0;
                    let ghost rest = out@;
                    out.insert(0, dc);
                    proof {
                        assert(out@ =~= seq![dc] + rest);
                    }
                    return Some((out, t.1));
                },
                None => return None,
            },
        }
    }
    if (c as u32) < 32 {
        return None;
    }
    match string_body(s, i + 1) {
        Some(t) => {
            let mut out = t.0;
            let ghost rest = out@;
            out.insert(0, c);
            proof {
                assert(out@ =~= seq![c] + rest);
            }
            Some((out, t.1))
        },
        None => None,
    }
}


/// One structured value starting at `i`, with `fuel` bounding the nesting
/// and element recursion; the value's model and the position after it.
pub open spec fn sp_value(s: Seq<char>, i: int, fuel: nat) -> Option<(JsonModel, int)>
    decreases fuel, 0int,
{
    if fuel == 0 {
        None
    } else if i < 0 || i >= s.len() {
        None
    } else {
        let c = s[i];
        if c == 'n' {
            if i + 4 <= s.len() && s[i + 1] == 'u' && s[i + 2] == 'l' && s[i + 3] == 'l' {
                Some((JsonModel::Null, i + 4))
            } else {
                None
            }
        } else if c == 't' {
            if i + 4 <= s.len() && s[i + 1] == 'r' && s[i + 2] == 'u' && s[i + 3] == 'e' {
                Some((JsonModel::Bool(true), i + 4))
            } else {
                None
            }
        } else if c == 'f' {
            if i + 5 <= s.len() && s[i + 1] == 'a' && s[i + 2] == 'l' && s[i + 3] == 's' && s[i + 4]
                == 'e' {
                Some((JsonModel::Bool(false), i + 5))
            } else {
                None
            }
        } else if c == '"' {
            match sp_string_body(s, i + 1) {
                Some((body, j)) => Some((JsonModel::Str(body), j)),
                None => None,
            }
        } else if c == '[' {
            let j = spec_skip_ws(s, i + 1);
            if j < s.len() && s[j] == ']' {
                Some((JsonModel::Arr(Seq::empty()), j + 1))
            } else {
                match sp_elems(s, j, (fuel - 1) as nat) {
                    Some((items, e)) => Some((JsonModel::Arr(items), e)),
                    None => None,
                }
            }
        } else if c == '{' {
            let j = spec_skip_ws(s, i + 1);
            if j < s.len() && s[j] == '}' {
                Some((JsonModel::Obj(Seq::empty()), j + 1))
            } else {
                match sp_members(s, j, (fuel - 1) as nat) {
                    Some((fields, e)) => Some((JsonModel::Obj(fields), e)),
                    None => None,
                }
            }
        } else if c == '-' || ('0' <= c && c <= '9') {
            match sp_number_end(s, i) {
                Some(e) => Some((JsonModel::Num, e)),
                None => None,
            }
        } else {
            None
        }
    }
}

/// One or more comma-separated values, ending at `]`.
pub open spec fn sp_elems(s: Seq<char>, i: int, fuel: nat) -> Option<(Seq<JsonModel>, int)>
    decreases fuel, 1int,
{
    if fuel == 0 {
        None
    } else {
        match sp_value(s, i, fuel) {
            None => None,
            Some((v, j)) => {
                let k = spec_skip_ws(s, j);
                if k < s.len() && s[k] == ',' {
                    let n = spec_skip_ws(s, k + 1);
                    match sp_elems(s, n, (fuel - 1) as nat) {
                        Some((rest, e)) => Some((seq![v] + rest, e)),
                        None => None,
                    }
                } else if k < s.len() && s[k] == ']' {
                    Some((seq![v], k + 1))
                } else {
                    None
                }
            },
        }
    }
}

/// One or more comma-separated `"key": value` members, ending at `}`.
pub open spec fn sp_members(s: Seq<char>, i: int, fuel: nat) -> Option<
    (Seq<(Seq<char>, JsonModel)>, int),
>
    decreases fuel, 1int,
{
    if fuel == 0 {
        None
    } else if !(0 <= i && i < s.len() && s[i] == '"') {
        None
    } else {
        match sp_string_body(s, i + 1) {
            None => None,
            Some((key, j)) => {
                let k = spec_skip_ws(s, j);
                if !(k < s.len() && s[k] == ':') {
                    None
                } else {
                    let v0 = spec_skip_ws(s, k + 1);
                    match sp_value(s, v0, fuel) {
                        None => None,
                        Some((v, j2)) => {
                            let k2 = spec_skip_ws(s, j2);
                            if k2 < s.len() && s[k2] == ',' {
                                let n = spec_skip_ws(s, k2 + 1);
                                match sp_members(s, n, (fuel - 1) as nat) {
                                    Some((rest, e)) => Some((seq![(key, v)] + rest, e)),
                                    None => None,
                                }
                            } else if k2 < s.len() && s[k2] == '}' {
                                Some((seq![(key, v)], k2 + 1))
                            } else {
                                None
                            }
                        },
                    }
                }
            },
        }
    }
}

/// Any fuel above the remaining length gives the same parse, and a parse
/// always makes progress.
pub proof fn lemma_value_fuel(s: Seq<char>, i: int, f1: nat, f2: nat)
    requires
        f1 > s.len() - i,
        f2 > s.len() - i,
    ensures
        sp_value(s, i, f1) == sp_value(s, i, f2),
        sp_value(s, i, f1) matches Some(t) ==> i < t.1 <= s.len(),
    decreases f1 + f2, 0int,
{
    if 0 <= i && i < s.len() {
        let c = s[i];
        if c == '"' {
            if sp_string_body(s, i + 1) is Some {
                lemma_string_body_bounds(s, i + 1);
            }
        } else if c == '[' {
            lemma_skip_ws_bounds(s, i + 1);
            let j = spec_skip_ws(s, i + 1);
            if !(j < s.len() && s[j] == ']') {
                lemma_elems_fuel(s, j, (f1 - 1) as nat, (f2 - 1) as nat);
            }
        } else if c == '{' {
            lemma_skip_ws_bounds(s, i + 1);
            let j = spec_skip_ws(s, i + 1);
            if !(j < s.len() && s[j] == '}') {
                lemma_members_fuel(s, j, (f1 - 1) as nat, (f2 - 1) as nat);
            }
        } else if c == '-' || ('0' <= c && c <= '9') {
            if sp_number_end(s, i) is Some {
                lemma_number_end_bounds(s, i);
            }
        }
    }
}

pub proof fn lemma_elems_fuel(s: Seq<char>, i: int, f1: nat, f2: nat)
    requires
        f1 > s.len() - i,
        f2 > s.len() - i,
    ensures
        sp_elems(s, i, f1) == sp_elems(s, i, f2),
        sp_elems(s, i, f1) matches Some(t) ==> i < t.1 <= s.len(),
    decreases f1 + f2, 1int,
{
    lemma_value_fuel(s, i, f1, f2);
    if f1 == 0 || f2 == 0 {
    } else {
        match sp_value(s, i, f1) {
            None => {},
            Some((v, j)) => {
                lemma_skip_ws_bounds(s, j);
                let k = spec_skip_ws(s, j);
                if k < s.len() && s[k] == ',' {
                    lemma_skip_ws_bounds(s, k + 1);
                    let n = spec_skip_ws(s, k + 1);
                    lemma_elems_fuel(s, n, (f1 - 1) as nat, (f2 - 1) as nat);
                }
            },
        }
    }
}

pub proof fn lemma_members_fuel(s: Seq<char>, i: int, f1: nat, f2: nat)
    requires
        f1 > s.len() - i,
        f2 > s.len() - i,
    ensures
        sp_members(s, i, f1) == sp_members(s, i, f2),
        sp_members(s, i, f1) matches Some(t) ==> i < t.1 <= s.len(),
    decreases f1 + f2, 1int,
{
    if f1 == 0 || f2 == 0 {
    } else if 0 <= i && i < s.len() && s[i] == '"' {
        match sp_string_body(s, i + 1) {
            None => {},
            Some((key, j)) => {
                lemma_string_body_bounds(s, i + 1);
                lemma_skip_ws_bounds(s, j);
                let k = spec_skip_ws(s, j);
                if k < s.len() && s[k] == ':' {
                    lemma_skip_ws_bounds(s, k + 1);
                    let v0 = spec_skip_ws(s, k + 1);
                    lemma_value_fuel(s, v0, f1, f2);
                    match sp_value(s, v0, f1) {
                        None => {},
                        Some((v, j2)) => {
                            lemma_skip_ws_bounds(s, j2);
                            let k2 = spec_skip_ws(s, j2);
                            if k2 < s.len() && s[k2] == ',' {
                                lemma_skip_ws_bounds(s, k2 + 1);
                                let n = spec_skip_ws(s, k2 + 1);
                                lemma_members_fuel(s, n, (f1 - 1) as nat, (f2 - 1) as nat);
                            }
                        },
                    }
                }
            },
        }
    }
}

/// The parse with just enough fuel: the canonical result.
pub open spec fn sp_value_at(s: Seq<char>, i: int) -> Option<(JsonModel, int)> {
    if 0 <= i <= s.len() {
        sp_value(s, i, (s.len() - i + 1) as nat)
    } else {
        None
    }
}

pub open spec fn sp_elems_at(s: Seq<char>, i: int) -> Option<(Seq<JsonModel>, int)> {
    if 0 <= i <= s.len() {
        sp_elems(s, i, (s.len() - i + 1) as nat)
    } else {
        None
    }
}

pub open spec fn sp_members_at(s: Seq<char>, i: int) -> Option<(Seq<(Seq<char>, JsonModel)>, int)> {
    if 0 <= i <= s.len() {
        sp_members(s, i, (s.len() - i + 1) as nat)
    } else {
        None
    }
}

fn parse_value(s: &Vec<char>, i: usize) -> (r: Option<(JsonValue, usize)>)
    requires
        i <= s@.len(),
    ensures
        match r {
            Some(t) => sp_value_at(s@, i as int) == Some((json_view(t.0), t.1 as int)) && i < t.1
                <= s@.len(),
            None => sp_value_at(s@, i as int) is None,
        },
    decreases s@.len() - i, 0int,
{
    if i >= s.len() {
        return None;
    }
    let c = s[i];
    if c == 'n' {
        if s.len() - i >= 4 && s[i + 1] == 'u' && s[i + 2] == 'l' && s[i + 3] == 'l' {
            Some((JsonValue::Null, i + 4))
        } else {
            None
        }
    } else if c == 't' {
        if s.len() - i >= 4 && s[i + 1] == 'r' && s[i + 2] == 'u' && s[i + 3] == 'e' {
            Some((JsonValue::Bool(true), i + 4))
        } else {
            None
        }
    } else if c == 'f' {
        if s.len() - i >= 5 && s[i + 1] == 'a' && s[i + 2] == 'l' && s[i + 3] == 's' && s[i + 4]
            == 'e' {
            Some((JsonValue::Bool(false), i + 5))
        } else {
            None
        }
    } else if c == '"' {
        match string_body(s, i + 1) {
            Some(t) => Some((JsonValue::Str(t.0), t.1)),
            None => None,
        }
    } else if c == '[' {
        let j = skip_ws(s, i + 1);
        if j < s.len() && s[j] == ']' {
            let items: Vec<JsonValue> = Vec::new();
            proof {
                assert(json_views(items@) =~= Seq::<JsonModel>::empty());
            }
            Some((JsonValue::Arr(items), j + 1))
        } else {
            let res = parse_elems(s, j);
            proof {
                lemma_elems_fuel(
                    s@,
                    j as int,
                    (s@.len() - j + 1) as nat,
                    (s@.len() - i) as nat,
                );
            }
            match res {
                Some(t) => Some((JsonValue::Arr(t.0), t.1)),
                None => None,
            }
        }
    } else if c == '{' {
        let j = skip_ws(s, i + 1);
        if j < s.len() && s[j] == '}' {
            let fields: Vec<(Vec<char>, JsonValue)> = Vec::new();
            proof {
                assert(json_field_views(fields@) =~= Seq::<(Seq<char>, JsonModel)>::empty());
            }
            Some((JsonValue::Obj(fields), j + 1))
        } else {
            let res = parse_members(s, j);
            proof {
                lemma_members_fuel(
                    s@,
                    j as int,
                    (s@.len() - j + 1) as nat,
                    (s@.len() - i) as nat,
                );
            }
            match res {
                Some(t) => Some((JsonValue::Obj(t.0), t.1)),
                None => None,
            }
        }
    } else if c == '-' || ('0' <= c && c <= '9') {
        match number_end(s, i) {
            Some(e) => Some((JsonValue::Num, e)),
            None => None,
        }
    } else {
        None
    }
}

fn parse_elems(s: &Vec<char>, i: usize) -> (r: Option<(Vec<JsonValue>, usize)>)
    requires
        i <= s@.len(),
    ensures
        match r {
            Some(t) => sp_elems_at(s@, i as int) == Some((json_views(t.0@), t.1 as int)) && i < t.1
                <= s@.len(),
            None => sp_elems_at(s@, i as int) is None,
        },
    decreases s@.len() - i, 1int,
{
    match parse_value(s, i) {
        None => None,
        Some((v, j)) => {
            let k = skip_ws(s, j);
            if k < s.len() && s[k] == ',' {
                let n = skip_ws(s, k + 1);
                let res = parse_elems(s, n);
                proof {
                    lemma_elems_fuel(
                        s@,
                        n as int,
                        (s@.len() - n + 1) as nat,
                        (s@.len() - i) as nat,
                    );
                }
                match res {
                    Some(t) => {
                        let mut items = t.0;
                        let ghost rest = items@;
                        items.insert(0, v);
                        proof {
                            assert(items@.drop_first() =~= rest);
                            assert(json_views(items@) =~= seq![json_view(v)] + json_views(rest));
                        }
                        Some((items, t.1))
                    },
                    None => None,
                }
            } else if k < s.len() && s[k] == ']' {
                let mut items: Vec<JsonValue> = Vec::new();
                items.push(v);
                proof {
                    assert(items@.drop_first() =~= Seq::<JsonValue>::empty());
                    assert(json_views(Seq::<JsonValue>::empty()) =~= Seq::<JsonModel>::empty());
                    assert(json_views(items@) =~= seq![json_view(v)]);
                }
                Some((items, k + 1))
            } else {
                None
            }
        },
    }
}

fn parse_members(s: &Vec<char>, i: usize) -> (r: Option<(Vec<(Vec<char>, JsonValue)>, usize)>)
    requires
        i <= s@.len(),
    ensures
        match r {
            Some(t) => sp_members_at(s@, i as int) == Some((json_field_views(t.0@), t.1 as int))
                && i < t.1 <= s@.len(),
            None => sp_members_at(s@, i as int) is None,
        },
    decreases s@.len() - i, 1int,
{
    if !(i < s.len() && s[i] == '"') {
        return None;
    }
    match string_body(s, i + 1) {
        None => None,
        Some((key, j)) => {
            let k = skip_ws(s, j);
            if !(k < s.len() && s[k] == ':') {
                return None;
            }
            let v0 = skip_ws(s, k + 1);
            match parse_value(s, v0) {
                None => {
                    proof {
                        lemma_value_fuel(
                            s@,
                            v0 as int,
                            (s@.len() - v0 + 1) as nat,
                            (s@.len() - i + 1) as nat,
                        );
                    }
                    None
                },
                Some((v, j2)) => {
                    proof {
                        lemma_value_fuel(
                            s@,
                            v0 as int,
                            (s@.len() - v0 + 1) as nat,
                            (s@.len() - i + 1) as nat,
                        );
                    }
                    let k2 = skip_ws(s, j2);
                    if k2 < s.len() && s[k2] == ',' {
                        let n = skip_ws(s, k2 + 1);
                        let res = parse_members(s, n);
                        proof {
                            lemma_members_fuel(
                                s@,
                                n as int,
                                (s@.len() - n + 1) as nat,
                                (s@.len() - i) as nat,
                            );
                        }
                        match res {
                            Some(t) => {
                                let mut fields = t.0;
                                let ghost rest = fields@;
                                fields.insert(0, (key, v));
                                proof {
                                    assert(fields@.drop_first() =~= rest);
                                    assert(json_field_views(fields@) =~= seq![
                                        (key@, json_view(v)),
                                    ] + json_field_views(rest));
                                }
                                Some((fields, t.1))
                            },
                            None => None,
                        }
                    } else if k2 < s.len() && s[k2] == '}' {
                        let mut fields: Vec<(Vec<char>, JsonValue)> = Vec::new();
                        fields.push((key, v));
                        proof {
                            assert(fields@.drop_first() =~= Seq::<(Vec<char>, JsonValue)>::empty());
                            assert(json_field_views(Seq::<(Vec<char>, JsonValue)>::empty())
                                =~= Seq::<(Seq<char>, JsonModel)>::empty());
                            assert(json_field_views(fields@) =~= seq![(fields@[0].0@, json_view(fields@[0].1))]);
                        }
                        Some((fields, k2 + 1))
                    } else {
                        None
                    }
                },
            }
        },
    }
}

/// One whole text as a single value: leading and trailing whitespace is
/// allowed, anything else after the value is refused.
pub open spec fn sp_top(s: Seq<char>) -> Option<JsonModel> {
    let j = spec_skip_ws(s, 0);
    match sp_value_at(s, j) {
        Some((v, e)) => if spec_skip_ws(s, e) == s.len() {
            Some(v)
        } else {
            None
        },
        None => None,
    }
}

/// Parses one whole text (`sp_top`), exactly.
pub fn parse_top(s: &Vec<char>) -> (r: Option<JsonValue>)
    ensures
        match r {
            Some(v) => sp_top(s@) == Some(json_view(v)),
            None => sp_top(s@) is None,
        },
{
    proof {
        lemma_skip_ws_bounds(s@, 0);
    }
    let j = skip_ws(s, 0);
    match parse_value(s, j) {
        Some((v, e)) => {
            let k = skip_ws(s, e);
            if k == s.len() {
                Some(v)
            } else {
                None
            }
        },
        None => None,
    }
}


pub proof fn lemma_json_views_index(items: Seq<JsonValue>)
    ensures
        json_views(items).len() == items.len(),
        forall|k: int| 0 <= k < items.len() ==> json_views(items)[k] == json_view(#[trigger] items[k]),
    decreases items.len(),
{
    if items.len() > 0 {
        lemma_json_views_index(items.drop_first());
        assert forall|k: int| 0 <= k < items.len() implies json_views(items)[k] == json_view(
            items[k],
        ) by {
            if k > 0 {
                assert(items.drop_first()[k - 1] == items[k]);
            }
        }
    }
}

pub proof fn lemma_field_views_index(fields: Seq<(Vec<char>, JsonValue)>)
    ensures
        json_field_views(fields).len() == fields.len(),
        forall|k: int|
            0 <= k < fields.len() ==> json_field_views(fields)[k] == ((#[trigger] fields[k]).0@,
            json_view(fields[k].1)),
    decreases fields.len(),
{
    if fields.len() > 0 {
        lemma_field_views_index(fields.drop_first());
        assert forall|k: int| 0 <= k < fields.len() implies json_field_views(fields)[k] == (
            fields[k].0@,
            json_view(fields[k].1),
        ) by {
            if k > 0 {
                assert(fields.drop_first()[k - 1] == fields[k]);
            }
        }
    }
}

/// How often a member name occurs.
pub open spec fn field_count(fields: Seq<(Seq<char>, JsonModel)>, name: Seq<char>) -> int
    decreases fields.len(),
{
    if fields.len() == 0 {
        0
    } else {
        (if fields[0].0 == name {
            1int
        } else {
            0int
        }) + field_count(fields.drop_first(), name)
    }
}

/// The first value under a member name.
pub open spec fn field_first(fields: Seq<(Seq<char>, JsonModel)>, name: Seq<char>) -> JsonModel
    decreases fields.len(),
{
    if fields.len() == 0 {
        JsonModel::Null
    } else if fields[0].0 == name {
        fields[0].1
    } else {
        field_first(fields.drop_first(), name)
    }
}

/// A required text field: present exactly once, and a string.  A missing,
/// duplicated or differently-typed field refuses the whole action.
pub open spec fn req_str(fields: Seq<(Seq<char>, JsonModel)>, name: Seq<char>) -> Option<Seq<char>> {
    if field_count(fields, name) == 1 {
        match field_first(fields, name) {
            JsonModel::Str(v) => Some(v),
            _ => None,
        }
    } else {
        None
    }
}

/// An optional text field: absent or null means none, a string means that
/// string, anything else (or a duplicate) refuses the action.
pub open spec fn opt_str(fields: Seq<(Seq<char>, JsonModel)>, name: Seq<char>) -> Option<
    Option<Seq<char>>,
> {
    if field_count(fields, name) == 0 {
        Some(None)
    } else if field_count(fields, name) == 1 {
        match field_first(fields, name) {
            JsonModel::Str(v) => Some(Some(v)),
            JsonModel::Null => Some(None),
            _ => None,
        }
    } else {
        None
    }
}

/// One action from its kind's name and its field object.
pub open spec fn action_from_variant(
    tag: Seq<char>,
    fields: Seq<(Seq<char>, JsonModel)>,
) -> Option<ActionModel> {
    if tag == "ReadFile"@ {
        match req_str(fields, "path"@) {
            Some(p) => Some(ActionModel::Read { path: p }),
            None => None,
        }
    } else if tag == "WriteFile"@ {
        match (req_str(fields, "path"@), req_str(fields, "content"@)) {
            (Some(p), Some(c)) => Some(ActionModel::Write { path: p, content: c }),
            _ => None,
        }
    } else if tag == "CreateDirectory"@ {
        match req_str(fields, "path"@) {
            Some(p) => Some(ActionModel::CreateDir { path: p }),
            None => None,
        }
    } else if tag == "DeleteFile"@ {
        match req_str(fields, "path"@) {
            Some(p) => Some(ActionModel::Delete { path: p }),
            None => None,
        }
    } else if tag == "ExecuteCommand"@ {
        match (req_str(fields, "command"@), opt_str(fields, "working_dir"@)) {
            (Some(c), Some(w)) => Some(ActionModel::Execute { command: c, working_dir: w }),
            _ => None,
        }
    } else if tag == "SearchFiles"@ {
        match (req_str(fields, "pattern"@), opt_str(fields, "directory"@)) {
            (Some(p), Some(d)) => Some(ActionModel::Search { pattern: p, directory: d }),
            _ => None,
        }
    } else if tag == "ReplaceInFile"@ {
        match (req_str(fields, "path"@), req_str(fields, "old"@), req_str(fields, "new"@)) {
            (Some(p), Some(o), Some(n)) => Some(ActionModel::Replace { path: p, old: o, new: n }),
            _ => None,
        }
    } else if tag == "ListDirectory"@ {
        match req_str(fields, "path"@) {
            Some(p) => Some(ActionModel::List { path: p }),
            None => None,
        }
    } else if tag == "GetFileInfo"@ {
        match req_str(fields, "path"@) {
            Some(p) => Some(ActionModel::Info { path: p }),
            None => None,
        }
    } else {
        None
    }
}

/// One action from a parsed value: an object with exactly one member, the
/// kind's name, holding the field object.
pub open spec fn action_from_model(m: JsonModel) -> Option<ActionModel> {
    match m {
        JsonModel::Obj(top) => if top.len() == 1 {
            match top[0].1 {
                JsonModel::Obj(inner) => action_from_variant(top[0].0, inner),
                _ => None,
            }
        } else {
            None
        },
        _ => None,
    }
}

/// A whole list of actions; one bad element refuses the list.
pub open spec fn actions_from_items(items: Seq<JsonModel>) -> Option<Seq<ActionModel>>
    decreases items.len(),
{
    if items.len() == 0 {
        Some(Seq::empty())
    } else {
        match action_from_model(items[0]) {
            Some(a) => match actions_from_items(items.drop_first()) {
                Some(rest) => Some(seq![a] + rest),
                None => None,
            },
            None => None,
        }
    }
}

/// What one fenced block of structured text yields: a whole value, then
/// either a list of actions or, failing that, a single action.
pub open spec fn sp_actions(text: Seq<char>) -> Option<Seq<ActionModel>> {
    match sp_top(text) {
        None => None,
        Some(m) => {
            let as_list = match m {
                JsonModel::Arr(items) => actions_from_items(items),
                _ => None,
            };
            match as_list {
                Some(l) => Some(l),
                None => match action_from_model(m) {
                    Some(a) => Some(seq![a]),
                    None => None,
                },
            }
        },
    }
}

/// Whether two character vectors hold the same text.
fn chars_is(a: &Vec<char>, b: &Vec<char>) -> (r: bool)
    ensures
        r == (a@ == b@),
{
    if a.len() != b.len() {
        return false;
    }
    let r = crate::text::check_at(a, 0, b);
    proof {
        assert(a@.subrange(0, b@.len() as int) =~= a@);
    }
    r
}

/// How often `name` occurs among the fields, and the first value under it.
fn find_field<'a>(fields: &'a Vec<(Vec<char>, JsonValue)>, name: &Vec<char>) -> (r: (
    usize,
    Option<&'a JsonValue>,
))
    ensures
        r.0 as int == field_count(json_field_views(fields@), name@),
        r.0 > 0 ==> (r.1 matches Some(v) && json_view(*v) == field_first(
            json_field_views(fields@),
            name@,
        )),
{
    let ghost fv = json_field_views(fields@);
    proof {
        lemma_field_views_index(fields@);
        assert(fv.skip(0) =~= fv);
    }
    let mut count: usize = 0;
    let mut found: Option<&JsonValue> = None;
    let mut i: usize = 0;
    while i < fields.len()
        invariant
            i <= fields@.len(),
            fv == json_field_views(fields@),
            fv.len() == fields@.len(),
            forall|k: int|
                0 <= k < fields@.len() ==> fv[k] == ((#[trigger] fields@[k]).0@, json_view(
                    fields@[k].1,
                )),
            count <= i,
            count as int + field_count(fv.skip(i as int), name@) == field_count(fv, name@),
            count > 0 ==> (found matches Some(v) && json_view(*v) == field_first(fv, name@)),
            count == 0 ==> found is None && field_first(fv, name@) == field_first(
                fv.skip(i as int),
                name@,
            ),
        decreases fields@.len() - i,
    {
        proof {
            assert(fv.skip(i as int).drop_first() =~= fv.skip(i + 1));
            assert(fv.skip(i as int)[0] == fv[i as int]);
        }
        if chars_is(&fields[i].0, name) {
            if count == 0 {
                found = Some(&fields[i].1);
            }
            count = count + 1;
        }
        i += 1;
    }
    proof {
        assert(fv.skip(fields@.len() as int) =~= Seq::<(Seq<char>, JsonModel)>::empty());
    }
    (count, found)
}

/// A required text field (`req_str`), exactly.
fn req_str_field<'a>(fields: &'a Vec<(Vec<char>, JsonValue)>, name: &Vec<char>) -> (r: Option<
    &'a Vec<char>,
>)
    ensures
        match r {
            Some(p) => req_str(json_field_views(fields@), name@) == Some(p@),
            None => req_str(json_field_views(fields@), name@) is None,
        },
{
    let f = find_field(fields, name);
    if f.0 == 1 {
        match f.1 {
            Some(v) => match v {
                JsonValue::Str(sv) => Some(sv),
                _ => None,
            },
            None => None,
        }
    } else {
        None
    }
}

/// An optional text field (`opt_str`), exactly.
fn opt_str_field<'a>(fields: &'a Vec<(Vec<char>, JsonValue)>, name: &Vec<char>) -> (r: Option<
    Option<&'a Vec<char>>,
>)
    ensures
        match r {
            Some(Some(p)) => opt_str(json_field_views(fields@), name@) == Some(Some(p@)),
            Some(None) => opt_str(json_field_views(fields@), name@) == Some(
                None::<Seq<char>>,
            ),
            None => opt_str(json_field_views(fields@), name@) is None,
        },
{
    let f = find_field(fields, name);
    if f.0 == 0 {
        Some(None)
    } else if f.0 == 1 {
        match f.1 {
            Some(v) => match v {
                JsonValue::Str(sv) => Some(Some(sv)),
                JsonValue::Null => Some(None),
                _ => None,
            },
            None => None,
        }
    } else {
        None
    }
}

/// One action from a parsed value (`action_from_model`), exactly.
pub fn action_from_value(v: &JsonValue) -> (r: Option<AgentAction>)
    ensures
        match r {
            Some(a) => action_from_model(json_view(*v)) == Some(a@),
            None => action_from_model(json_view(*v)) is None,
        },
{
    match v {
        JsonValue::Obj(top) => {
            proof {
                lemma_field_views_index(top@);
            }
            if top.len() != 1 {
                return None;
            }
            let tag = &top[0].0;
            match &top[0].1 {
                JsonValue::Obj(inner) => {
                    if chars_is(tag, &to_chars("ReadFile")) {
                        match req_str_field(inner, &to_chars("path")) {
                            Some(p) => Some(
                                AgentAction::ReadFile { path: string_from_chars(p) },
                            ),
                            None => None,
                        }
                    } else if chars_is(tag, &to_chars("WriteFile")) {
                        match (req_str_field(inner, &to_chars("path")), req_str_field(
                            inner,
                            &to_chars("content"),
                        )) {
                            (Some(p), Some(c)) => Some(
                                AgentAction::WriteFile {
                                    path: string_from_chars(p),
                                    content: string_from_chars(c),
                                },
                            ),
                            _ => None,
                        }
                    } else if chars_is(tag, &to_chars("CreateDirectory")) {
                        match req_str_field(inner, &to_chars("path")) {
                            Some(p) => Some(
                                AgentAction::CreateDirectory { path: string_from_chars(p) },
                            ),
                            None => None,
                        }
                    } else if chars_is(tag, &to_chars("DeleteFile")) {
                        match req_str_field(inner, &to_chars("path")) {
                            Some(p) => Some(
                                AgentAction::DeleteFile { path: string_from_chars(p) },
                            ),
                            None => None,
                        }
                    } else if chars_is(tag, &to_chars("ExecuteCommand")) {
                        match (req_str_field(inner, &to_chars("command")), opt_str_field(
                            inner,
                            &to_chars("working_dir"),
                        )) {
                            (Some(c), Some(w)) => Some(
                                AgentAction::ExecuteCommand {
                                    command: string_from_chars(c),
                                    working_dir: match w {
                                        Some(d) => Some(string_from_chars(d)),
                                        None => None,
                                    },
                                },
                            ),
                            _ => None,
                        }
                    } else if chars_is(tag, &to_chars("SearchFiles")) {
                        match (req_str_field(inner, &to_chars("pattern")), opt_str_field(
                            inner,
                            &to_chars("directory"),
                        )) {
                            (Some(p), Some(d)) => Some(
                                AgentAction::SearchFiles {
                                    pattern: string_from_chars(p),
                                    directory: match d {
                                        Some(dd) => Some(string_from_chars(dd)),
                                        None => None,
                                    },
                                },
                            ),
                            _ => None,
                        }
                    } else if chars_is(tag, &to_chars("ReplaceInFile")) {
                        match (req_str_field(inner, &to_chars("path")), req_str_field(
                            inner,
                            &to_chars("old"),
                        ), req_str_field(inner, &to_chars("new"))) {
                            (Some(p), Some(o), Some(n)) => Some(
                                AgentAction::ReplaceInFile {
                                    path: string_from_chars(p),
                                    old: string_from_chars(o),
                                    new: string_from_chars(n),
                                },
                            ),
                            _ => None,
                        }
                    } else if chars_is(tag, &to_chars("ListDirectory")) {
                        match req_str_field(inner, &to_chars("path")) {
                            Some(p) => Some(
                                AgentAction::ListDirectory { path: string_from_chars(p) },
                            ),
                            None => None,
                        }
                    } else if chars_is(tag, &to_chars("GetFileInfo")) {
                        match req_str_field(inner, &to_chars("path")) {
                            Some(p) => Some(
                                AgentAction::GetFileInfo { path: string_from_chars(p) },
                            ),
                            None => None,
                        }
                    } else {
                        None
                    }
                },
                _ => None,
            }
        },
        _ => None,
    }
}

fn actions_from_items_exec(items: &Vec<JsonValue>, i: usize) -> (r: Option<Vec<AgentAction>>)
    requires
        i <= items@.len(),
    ensures
        ({
            let m = actions_from_items(json_views(items@).skip(i as int));
            match r {
                Some(acts) => m matches Some(l) && acts@.len() == l.len() && (forall|k: int|
                    0 <= k < l.len() ==> (#[trigger] acts@[k])@ == l[k]),
                None => m is None,
            }
        }),
    decreases items@.len() - i,
{
    let ghost jv = json_views(items@);
    proof {
        lemma_json_views_index(items@);
    }
    if i == items.len() {
        proof {
            assert(jv.skip(i as int) =~= Seq::<JsonModel>::empty());
        }
        return Some(Vec::new());
    }
    proof {
        assert(jv.skip(i as int)[0] == jv[i as int]);
        assert(jv.skip(i as int).drop_first() =~= jv.skip(i + 1));
    }
    match action_from_value(&items[i]) {
        None => None,
        Some(a) => match actions_from_items_exec(items, i + 1) {
            None => None,
            Some(rest) => {
                let mut acts = rest;
                acts.insert(0, a);
                Some(acts)
            },
        },
    }
}

/// The actions one fenced block of structured text yields (`sp_actions`),
/// exactly.
pub fn actions_from_json_text(text: &Vec<char>) -> (r: Option<Vec<AgentAction>>)
    ensures
        ({
            let m = sp_actions(text@);
            match r {
                Some(acts) => m matches Some(l) && acts@.len() == l.len() && (forall|k: int|
                    0 <= k < l.len() ==> (#[trigger] acts@[k])@ == l[k]),
                None => m is None,
            }
        }),
{
    match parse_top(text) {
        None => None,
        Some(v) => {
            let as_list: Option<Vec<AgentAction>> = match &v {
                JsonValue::Arr(items) => {
                    proof {
                        assert(json_views(items@).skip(0) =~= json_views(items@));
                    }
                    actions_from_items_exec(items, 0)
                },
                _ => None,
            };
            match as_list {
                Some(acts) => Some(acts),
                None => match action_from_value(&v) {
                    Some(a) => {
                        let mut one: Vec<AgentAction> = Vec::new();
                        one.push(a);
                        Some(one)
                    },
                    None => None,
                },
            }
        },
    }
}

} // verus!
