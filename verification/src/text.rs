//! Character-level text utilities shared by the parser, the executor and
//! the formatter: conversions between `String` and `Vec<char>`, the
//! lexicographic order on character sequences, a sorting routine, line
//! splitting with the semantics of `str::lines`, and decimal rendering.

use vstd::prelude::*;
use vstd::relations::{sorted_by, total_ordering};
use vstd::seq_lib::group_to_multiset_ensures;

verus! {

/// The characters the scanner treats as whitespace (the ASCII whitespace
/// class: space, tab, line feed, vertical tab, form feed, carriage return).
pub open spec fn spec_is_ws(c: char) -> bool {
    c == ' ' || c == '\t' || c == '\n' || c == '\u{B}' || c == '\u{C}' || c == '\r'
}

pub fn is_ws(c: char) -> (r: bool)
    ensures
        r == spec_is_ws(c),
{
    c == ' ' || c == '\t' || c == '\n' || c == '\u{B}' || c == '\u{C}' || c == '\r'
}

/// The characters of a string slice, one by one.
pub fn to_chars(s: &str) -> (r: Vec<char>)
    ensures
        r@ == s@,
{
    let n = s.unicode_len();
    let mut r: Vec<char> = Vec::new();
    let mut i: usize = 0;
    while i < n
        invariant
            n == s@.len(),
            i <= n,
            r@ == s@.subrange(0, i as int),
        decreases n - i,
    {
        r.push(s.get_char(i));
        i += 1;
        proof {
            assert(r@ =~= s@.subrange(0, i as int));
        }
    }
    proof {
        assert(r@ =~= s@);
    }
    r
}

/// Relies on `String: FromIterator<char>`: collecting characters yields the
/// string of exactly those characters in order.
#[verifier::external_body]
pub fn string_from_chars(v: &Vec<char>) -> (r: String)
    ensures
        r@ == v@,
{
    v.iter().collect()
}

/// A fresh copy of `s[from..to]`.
pub fn subvec(s: &Vec<char>, from: usize, to: usize) -> (r: Vec<char>)
    requires
        from <= to <= s@.len(),
    ensures
        r@ == s@.subrange(from as int, to as int),
{
    let mut r: Vec<char> = Vec::new();
    let mut i: usize = from;
    while i < to
        invariant
            from <= i <= to <= s@.len(),
            r@ == s@.subrange(from as int, i as int),
        decreases to - i,
    {
        r.push(s[i]);
        i += 1;
        proof {
            assert(r@ =~= s@.subrange(from as int, i as int));
        }
    }
    r
}

/// The lexicographic order on character sequences by code point, which is
/// also the byte-wise order of the UTF-8 encodings.
pub open spec fn lex_le(a: Seq<char>, b: Seq<char>) -> bool
    decreases a.len(),
{
    if a.len() == 0 {
        true
    } else if b.len() == 0 {
        false
    } else if a[0] != b[0] {
        (a[0] as u32) < (b[0] as u32)
    } else {
        lex_le(a.drop_first(), b.drop_first())
    }
}

pub proof fn lemma_lex_le_total(a: Seq<char>, b: Seq<char>)
    ensures
        lex_le(a, b) || lex_le(b, a),
    decreases a.len(),
{
    if a.len() != 0 && b.len() != 0 {
        if a[0] == b[0] {
            lemma_lex_le_total(a.drop_first(), b.drop_first());
        } else {
            vstd::utf8::char_u32_cast(a[0], a[0] as u32);
            vstd::utf8::char_u32_cast(b[0], b[0] as u32);
        }
    }
}

pub proof fn lemma_lex_le_antisymmetric(a: Seq<char>, b: Seq<char>)
    requires
        lex_le(a, b),
        lex_le(b, a),
    ensures
        a == b,
    decreases a.len(),
{
    if a.len() == 0 {
        assert(b.len() == 0);
        assert(a =~= b);
    } else {
        assert(b.len() != 0);
        assert(a[0] == b[0]);
        lemma_lex_le_antisymmetric(a.drop_first(), b.drop_first());
        assert(a =~= seq![a[0]] + a.drop_first());
        assert(b =~= seq![b[0]] + b.drop_first());
    }
}

pub proof fn lemma_lex_le_transitive(a: Seq<char>, b: Seq<char>, c: Seq<char>)
    requires
        lex_le(a, b),
        lex_le(b, c),
    ensures
        lex_le(a, c),
    decreases a.len(),
{
    if a.len() != 0 && b.len() != 0 && c.len() != 0 && a[0] == b[0] && b[0] == c[0] {
        lemma_lex_le_transitive(a.drop_first(), b.drop_first(), c.drop_first());
    }
}

/// The lexicographic order as a binary relation value.
pub open spec fn lex_leq() -> spec_fn(Seq<char>, Seq<char>) -> bool {
    |a: Seq<char>, b: Seq<char>| lex_le(a, b)
}

pub proof fn lemma_lex_leq_total_ordering()
    ensures
        total_ordering(lex_leq()),
{
    let leq = lex_leq();
    assert forall|a: Seq<char>| #[trigger] leq(a, a) by {
        lemma_lex_le_total(a, a);
    }
    assert forall|a: Seq<char>, b: Seq<char>| #[trigger] leq(a, b) && #[trigger] leq(b, a)
        implies a == b by {
        lemma_lex_le_antisymmetric(a, b);
    }
    assert forall|a: Seq<char>, b: Seq<char>, c: Seq<char>|
        #[trigger] leq(a, b) && #[trigger] leq(b, c) implies leq(a, c) by {
        lemma_lex_le_transitive(a, b, c);
    }
    assert forall|a: Seq<char>, b: Seq<char>| #![trigger leq(a, b)] true implies leq(a, b) || leq(
        b,
        a,
    ) by {
        lemma_lex_le_total(a, b);
    }
}

pub fn lex_le_chars(a: &Vec<char>, b: &Vec<char>) -> (r: bool)
    ensures
        r == lex_le(a@, b@),
{
    let mut i: usize = 0;
    proof {
        assert(a@.skip(0) =~= a@);
        assert(b@.skip(0) =~= b@);
        assert(a@.subrange(0, 0) =~= b@.subrange(0, 0));
    }
    loop
        invariant
            i <= a@.len(),
            i <= b@.len(),
            a@.subrange(0, i as int) == b@.subrange(0, i as int),
            lex_le(a@, b@) == lex_le(a@.skip(i as int), b@.skip(i as int)),
        decreases a@.len() - i,
    {
        if i >= a.len() {
            return true;
        }
        if i >= b.len() {
            return false;
        }
        let ca = a[i];
        let cb = b[i];
        if ca != cb {
            return (ca as u32) < (cb as u32);
        }
        proof {
            assert(a@.skip(i as int).drop_first() =~= a@.skip(i + 1));
            assert(b@.skip(i as int).drop_first() =~= b@.skip(i + 1));
            assert(a@.subrange(0, i + 1) =~= b@.subrange(0, i + 1));
        }
        i += 1;
    }
}

/// The views of the elements of a vector of character vectors.
pub open spec fn views_of(v: Seq<Vec<char>>) -> Seq<Seq<char>> {
    v.map_values(|x: Vec<char>| x@)
}

/// Sorts character strings into lexicographic order, keeping exactly the
/// same collection of strings.
pub fn sort_strings(v: &mut Vec<Vec<char>>)
    ensures
        sorted_by(views_of(final(v)@), lex_leq()),
        views_of(final(v)@).to_multiset() == views_of(old(v)@).to_multiset(),
{
    broadcast use group_to_multiset_ensures;

    let ghost orig = views_of(v@);
    let mut i: usize = 1;
    while i < v.len()
        invariant
            1 <= i <= v@.len() || v@.len() == 0,
            sorted_by(views_of(v@).subrange(0, if i <= v@.len() { i as int } else { v@.len() as int }), lex_leq()),
            views_of(v@).to_multiset() == orig.to_multiset(),
        decreases v@.len() - i,
    {
        let ghost pre = views_of(v@);
        let mut j: usize = i;
        while j > 0 && !lex_le_chars(&v[j - 1], &v[i])
            invariant
                0 <= j <= i < v@.len(),
                views_of(v@) == pre,
                forall|k: int| j <= k < i ==> !lex_le(pre[k], pre[i as int]),
            decreases j,
        {
            j -= 1;
        }
        proof {
            lemma_lex_leq_total_ordering();
            assert forall|k: int| j <= k < i implies lex_le(pre[i as int], pre[k]) by {
                lemma_lex_le_total(pre[k], pre[i as int]);
            }
        }
        let x = v.remove(i);
        v.insert(j, x);
        proof {
            let now = views_of(v@);
            let sj = j as int;
            let si = i as int;
            pre.remove_ensures(si);
            pre.remove(si).insert_ensures(sj, pre[si]);
            assert(now =~= pre.remove(si).insert(sj, pre[si]));
            lemma_sorted_after_insert(pre, si, sj);
            assert(now.subrange(0, si + 1) =~= pre.remove(si).insert(sj, pre[si]).subrange(
                0,
                si + 1,
            ));
            vstd::seq_lib::to_multiset_remove(pre, si);
            vstd::seq_lib::to_multiset_insert(pre.remove(si), sj, pre[si]);
            pre.to_multiset_ensures();
            assert(pre.contains(pre[si]));
            assert(pre.to_multiset().count(pre[si]) > 0);
            assert(now.to_multiset() =~= pre.to_multiset());
        }
        i += 1;
    }
    proof {
        if v@.len() > 0 {
            assert(views_of(v@).subrange(0, v@.len() as int) =~= views_of(v@));
        }
        assert(sorted_by(views_of(v@), lex_leq()));
    }
}

/// Inserting the removed element at its insertion point keeps the sorted
/// prefix sorted one element longer.
#[verifier::rlimit(50)]
proof fn lemma_sorted_after_insert(pre: Seq<Seq<char>>, i: int, j: int)
    requires
        0 <= j <= i < pre.len(),
        sorted_by(pre.subrange(0, i), lex_leq()),
        forall|k: int| j <= k < i ==> lex_le(pre[i], pre[k]),
        j > 0 ==> lex_le(pre[j - 1], pre[i]),
    ensures
        sorted_by(pre.remove(i).insert(j, pre[i]).subrange(0, i + 1), lex_leq()),
{
    let rm = pre.remove(i);
    let ins = rm.insert(j, pre[i]);
    let out = ins.subrange(0, i + 1);
    pre.remove_ensures(i);
    rm.insert_ensures(j, pre[i]);
    assert(forall|k: int| 0 <= k < j ==> #[trigger] out[k] == pre[k]);
    assert(out[j] == pre[i]);
    assert forall|k: int| j < k <= i implies #[trigger] out[k] == pre[k - 1] by {
        assert(ins[k] == rm[k - 1]);
        assert(rm[k - 1] == pre[k - 1]);
    }
    let sub = pre.subrange(0, i);
    assert forall|p: int, q: int| 0 <= p < q < out.len() implies lex_leq()(out[p], out[q]) by {
        if p < j && q < j {
            assert(lex_leq()(sub[p], sub[q]));
        } else if p < j && q == j {
            if p < j - 1 {
                assert(lex_leq()(sub[p], sub[j - 1]));
                lemma_lex_le_transitive(pre[p], pre[j - 1], pre[i]);
            }
        } else if p < j && q > j {
            assert(lex_leq()(sub[p], sub[q - 1]));
        } else if p == j && q > j {
            assert(lex_le(pre[i], pre[q - 1]));
        } else if p > j && q > j {
            assert(lex_leq()(sub[p - 1], sub[q - 1]));
        }
    }
}

/// Two sorted sequences holding the same strings the same number of times
/// are the same sequence: the sorted order of a collection is unique.
pub proof fn lemma_sorted_unique(a: Seq<Seq<char>>, b: Seq<Seq<char>>)
    requires
        sorted_by(a, lex_leq()),
        sorted_by(b, lex_leq()),
        a.to_multiset() == b.to_multiset(),
    ensures
        a == b,
    decreases a.len(),
{
    broadcast use group_to_multiset_ensures;

    a.to_multiset_ensures();
    b.to_multiset_ensures();
    if a.len() == 0 {
        assert(b.len() == 0);
        assert(a =~= b);
    } else {
        assert(a.len() == a.to_multiset().len());
        assert(b.len() == b.to_multiset().len());
        assert(a.contains(a[0]));
        assert(b.to_multiset().count(a[0]) > 0);
        assert(b.contains(a[0]));
        let j = choose|j: int| 0 <= j < b.len() && b[j] == a[0];
        if j > 0 {
            assert(lex_leq()(b[0], b[j]));
        } else {
            lemma_lex_le_total(b[0], b[0]);
        }
        assert(lex_le(b[0], a[0]));
        assert(b.contains(b[0]));
        assert(a.to_multiset().count(b[0]) > 0);
        assert(a.contains(b[0]));
        let k = choose|k: int| 0 <= k < a.len() && a[k] == b[0];
        if k > 0 {
            assert(lex_leq()(a[0], a[k]));
        } else {
            lemma_lex_le_total(a[0], a[0]);
        }
        assert(lex_le(a[0], b[0]));
        lemma_lex_le_antisymmetric(a[0], b[0]);
        let at = a.drop_first();
        let bt = b.drop_first();
        vstd::seq_lib::to_multiset_remove(a, 0);
        vstd::seq_lib::to_multiset_remove(b, 0);
        assert(a.remove(0) =~= at);
        assert(b.remove(0) =~= bt);
        assert(at.to_multiset() == bt.to_multiset());
        assert forall|p: int, q: int| 0 <= p < q < at.len() implies lex_leq()(at[p], at[q]) by {
            assert(lex_leq()(a[p + 1], a[q + 1]));
        }
        assert forall|p: int, q: int| 0 <= p < q < bt.len() implies lex_leq()(bt[p], bt[q]) by {
            assert(lex_leq()(b[p + 1], b[q + 1]));
        }
        lemma_sorted_unique(at, bt);
        assert forall|m: int| 0 <= m < a.len() implies a[m] == b[m] by {
            if m > 0 {
                assert(a[m] == at[m - 1]);
                assert(b[m] == bt[m - 1]);
            }
        }
        assert(a =~= b);
    }
}

/// The position of the last occurrence of `c`.
pub open spec fn spec_rfind_char(s: Seq<char>, c: char) -> Option<int>
    decreases s.len(),
{
    if s.len() == 0 {
        None
    } else if s[s.len() - 1] == c {
        Some(s.len() - 1)
    } else {
        spec_rfind_char(s.drop_last(), c)
    }
}

pub proof fn lemma_rfind_char_bounds(s: Seq<char>, c: char)
    requires
        spec_rfind_char(s, c) is Some,
    ensures
        0 <= spec_rfind_char(s, c)->0 < s.len(),
        s[spec_rfind_char(s, c)->0] == c,
    decreases s.len(),
{
    if s.len() > 0 && s[s.len() - 1] != c {
        lemma_rfind_char_bounds(s.drop_last(), c);
    }
}

pub fn rfind_char(s: &Vec<char>, c: char) -> (r: Option<usize>)
    ensures
        match r {
            Some(k) => spec_rfind_char(s@, c) == Some(k as int),
            None => spec_rfind_char(s@, c) is None,
        },
{
    let mut i: usize = s.len();
    proof {
        assert(s@.take(s@.len() as int) =~= s@);
    }
    while i > 0
        invariant
            i <= s@.len(),
            spec_rfind_char(s@, c) == spec_rfind_char(s@.take(i as int), c),
        decreases i,
    {
        if s[i - 1] == c {
            proof {
                assert(s@.take(i as int)[i - 1] == s@[i - 1]);
            }
            return Some(i - 1);
        }
        proof {
            assert(s@.take(i as int).drop_last() =~= s@.take(i - 1));
        }
        i -= 1;
    }
    proof {
        assert(s@.take(0) =~= Seq::<char>::empty());
    }
    None
}

/// The position of the first occurrence of `c` at or after `from`.
pub open spec fn spec_find_char(s: Seq<char>, from: int, c: char) -> Option<int>
    decreases s.len() - from,
{
    if from < 0 || from >= s.len() {
        None
    } else if s[from] == c {
        Some(from)
    } else {
        spec_find_char(s, from + 1, c)
    }
}

pub proof fn lemma_find_char_bounds(s: Seq<char>, from: int, c: char)
    requires
        spec_find_char(s, from, c) is Some,
    ensures
        from <= spec_find_char(s, from, c)->0 < s.len(),
        s[spec_find_char(s, from, c)->0] == c,
    decreases s.len() - from,
{
    if !(from < 0 || from >= s.len()) && s[from] != c {
        lemma_find_char_bounds(s, from + 1, c);
    }
}

pub fn find_char_from(s: &Vec<char>, from: usize, c: char) -> (r: Option<usize>)
    ensures
        match r {
            Some(k) => spec_find_char(s@, from as int, c) == Some(k as int),
            None => spec_find_char(s@, from as int, c) is None,
        },
{
    let mut i: usize = from;
    if i > s.len() {
        return None;
    }
    while i < s.len()
        invariant
            from <= i <= s@.len(),
            spec_find_char(s@, from as int, c) == spec_find_char(s@, i as int, c),
        decreases s@.len() - i,
    {
        if s[i] == c {
            return Some(i);
        }
        i += 1;
    }
    None
}

/// A line with a trailing carriage return stripped, as `str::lines` does.
pub open spec fn strip_cr(t: Seq<char>) -> Seq<char> {
    if t.len() > 0 && t[t.len() - 1] == '\r' {
        t.drop_last()
    } else {
        t
    }
}

/// The lines of `s` starting at `i`, with the semantics of `str::lines`:
/// split at line feeds, strip a carriage return standing right before a
/// line feed, and do not report an empty piece after a final line feed.  A
/// carriage return at the very end of the text, with no line feed after
/// it, stays.
pub open spec fn spec_lines_from(s: Seq<char>, i: int) -> Seq<Seq<char>>
    decreases s.len() - i,
{
    if i < 0 || i >= s.len() {
        Seq::empty()
    } else {
        match spec_find_char(s, i, '\n') {
            None => seq![s.subrange(i, s.len() as int)],
            Some(k) => if i <= k && k < s.len() {
                seq![strip_cr(s.subrange(i, k))] + spec_lines_from(s, k + 1)
            } else {
                Seq::empty()
            },
        }
    }
}

pub open spec fn spec_lines(s: Seq<char>) -> Seq<Seq<char>> {
    spec_lines_from(s, 0)
}

/// Splits into lines as `str::lines` does.
pub fn split_lines(s: &Vec<char>) -> (r: Vec<Vec<char>>)
    ensures
        views_of(r@) == spec_lines(s@),
{
    let mut out: Vec<Vec<char>> = Vec::new();
    let mut i: usize = 0;
    proof {
        assert(views_of(out@) + spec_lines_from(s@, 0) =~= spec_lines(s@));
    }
    while i < s.len()
        invariant
            i <= s@.len(),
            views_of(out@) + spec_lines_from(s@, i as int) == spec_lines(s@),
        decreases s@.len() - i,
    {
        let ghost pre_out = views_of(out@);
        match find_char_from(s, i, '\n') {
            Some(k) => {
                proof {
                    lemma_find_char_bounds(s@, i as int, '\n');
                }
                let mut piece = subvec(s, i, k);
                if piece.len() > 0 && piece[piece.len() - 1] == '\r' {
                    piece.pop();
                }
                proof {
                    assert(piece@ =~= strip_cr(s@.subrange(i as int, k as int)));
                }
                out.push(piece);
                proof {
                    assert(views_of(out@) =~= pre_out.push(strip_cr(s@.subrange(i as int, k as int))));
                    assert(views_of(out@) + spec_lines_from(s@, k + 1) =~= spec_lines(s@));
                }
                i = k + 1;
            },
            None => {
                let piece = subvec(s, i, s.len());
                out.push(piece);
                proof {
                    assert(views_of(out@) =~= pre_out.push(s@.subrange(i as int, s@.len() as int)));
                    assert(views_of(out@) + spec_lines_from(s@, s@.len() as int) =~= spec_lines(s@));
                }
                i = s.len();
            },
        }
    }
    proof {
        assert(views_of(out@) =~= views_of(out@) + spec_lines_from(s@, i as int));
    }
    out
}

/// The pieces joined with a line feed between consecutive pieces.
pub open spec fn spec_join_nl_from(items: Seq<Seq<char>>, i: int) -> Seq<char>
    decreases items.len() - i,
{
    if i < 0 || i >= items.len() {
        Seq::empty()
    } else if i == items.len() - 1 {
        items[i]
    } else {
        items[i] + seq!['\n'] + spec_join_nl_from(items, i + 1)
    }
}

pub open spec fn spec_join_nl(items: Seq<Seq<char>>) -> Seq<char> {
    spec_join_nl_from(items, 0)
}

fn join_nl_from(items: &Vec<Vec<char>>, i: usize) -> (r: Vec<char>)
    requires
        i <= items@.len(),
    ensures
        r@ == spec_join_nl_from(views_of(items@), i as int),
    decreases items@.len() - i,
{
    let mut r: Vec<char> = Vec::new();
    if i >= items.len() {
        proof {
            assert(r@ =~= spec_join_nl_from(views_of(items@), i as int));
        }
        return r;
    }
    let mut piece = subvec(&items[i], 0, items[i].len());
    proof {
        assert(piece@ =~= views_of(items@)[i as int]);
    }
    r.append(&mut piece);
    if i + 1 < items.len() {
        r.push('\n');
        let mut rest = join_nl_from(items, i + 1);
        r.append(&mut rest);
        proof {
            assert(r@ =~= spec_join_nl_from(views_of(items@), i as int));
        }
    } else {
        proof {
            assert(r@ =~= spec_join_nl_from(views_of(items@), i as int));
        }
    }
    r
}

/// Joins character strings with a line feed between consecutive pieces.
pub fn join_nl(items: &Vec<Vec<char>>) -> (r: Vec<char>)
    ensures
        r@ == spec_join_nl(views_of(items@)),
{
    join_nl_from(items, 0)
}

/// The decimal digit character for `d`.
pub open spec fn spec_digit(d: nat) -> char {
    ((48 + d) as u8) as char
}

/// The decimal rendering of `n`, most significant digit first, no sign and
/// no leading zero.
pub open spec fn spec_dec(n: nat) -> Seq<char>
    decreases n,
{
    if n < 10 {
        seq![spec_digit(n)]
    } else {
        spec_dec(n / 10).push(spec_digit(n % 10))
    }
}

/// Renders `n` in decimal.
pub fn dec_chars(n: u64) -> (r: Vec<char>)
    ensures
        r@ == spec_dec(n as nat),
    decreases n,
{
    if n < 10 {
        let d: u8 = 48 + (n as u8);
        let mut r: Vec<char> = Vec::new();
        r.push(d as char);
        proof {
            assert(r@ =~= seq![spec_digit(n as nat)]);
        }
        r
    } else {
        let mut r = dec_chars(n / 10);
        let d: u8 = 48 + ((n % 10) as u8);
        r.push(d as char);
        r
    }
}

/// Whether `pat` occurs in `s` starting exactly at `i`.
pub open spec fn at_pos(s: Seq<char>, i: int, pat: Seq<char>) -> bool {
    0 <= i && i + pat.len() <= s.len() && s.subrange(i, i + pat.len()) == pat
}

/// Whether `pat` occurs at `i` when letters are compared without regard to
/// ASCII case.
pub open spec fn at_pos_ci(s: Seq<char>, i: int, pat: Seq<char>) -> bool {
    0 <= i && i + pat.len() <= s.len() && forall|k: int|
        0 <= k < pat.len() ==> ascii_lower(s[i + k]) == ascii_lower(#[trigger] pat[k])
}

/// ASCII lower-casing of a single character; other characters are unchanged.
pub open spec fn ascii_lower(c: char) -> char {
    if 'A' <= c && c <= 'Z' {
        (((c as u8) + 32) as char)
    } else {
        c
    }
}

pub fn lower(c: char) -> (r: char)
    ensures
        r == ascii_lower(c),
{
    if 'A' <= c && c <= 'Z' {
        (((c as u8) + 32) as char)
    } else {
        c
    }
}

/// Whether `pat` occurs in `s` at position `i`, comparing letters without
/// regard to ASCII case.
pub fn check_at_ci(s: &Vec<char>, i: usize, pat: &Vec<char>) -> (r: bool)
    ensures
        r == at_pos_ci(s@, i as int, pat@),
{
    if i > s.len() || pat.len() > s.len() - i {
        return false;
    }
    let n = s.len();
    let mut k: usize = 0;
    while k < pat.len()
        invariant
            k <= pat@.len(),
            i + pat@.len() <= n,
            n == s@.len(),
            forall|m: int| 0 <= m < k ==> ascii_lower(s@[i + m]) == ascii_lower(#[trigger] pat@[m]),
        decreases pat@.len() - k,
    {
        if lower(s[i + k]) != lower(pat[k]) {
            return false;
        }
        k += 1;
    }
    true
}

/// The position of the first non-whitespace character at or after `i`.
pub open spec fn spec_skip_ws(s: Seq<char>, i: int) -> int
    decreases s.len() - i,
{
    if i < 0 || i >= s.len() || !spec_is_ws(s[i]) {
        i
    } else {
        spec_skip_ws(s, i + 1)
    }
}

pub proof fn lemma_skip_ws_bounds(s: Seq<char>, i: int)
    requires
        0 <= i <= s.len(),
    ensures
        i <= spec_skip_ws(s, i) <= s.len(),
    decreases s.len() - i,
{
    if !(i >= s.len() || !spec_is_ws(s[i])) {
        lemma_skip_ws_bounds(s, i + 1);
    }
}

/// Where the whitespace run stops there stands no whitespace.
pub proof fn lemma_skip_ws_stops(s: Seq<char>, i: int)
    requires
        0 <= i <= s.len(),
    ensures
        spec_skip_ws(s, i) < s.len() ==> !spec_is_ws(s[spec_skip_ws(s, i)]),
    decreases s.len() - i,
{
    if i < s.len() && spec_is_ws(s[i]) {
        lemma_skip_ws_stops(s, i + 1);
    }
}

pub fn skip_ws(s: &Vec<char>, i: usize) -> (r: usize)
    requires
        i <= s@.len(),
    ensures
        r as int == spec_skip_ws(s@, i as int),
        i <= r <= s@.len(),
{
    let mut j: usize = i;
    while j < s.len() && is_ws(s[j])
        invariant
            i <= j <= s@.len(),
            spec_skip_ws(s@, i as int) == spec_skip_ws(s@, j as int),
        decreases s@.len() - j,
    {
        j += 1;
    }
    j
}

/// Whether `pat` occurs in `s` at position `i` (exact comparison).
pub fn check_at(s: &Vec<char>, i: usize, pat: &Vec<char>) -> (r: bool)
    ensures
        r == at_pos(s@, i as int, pat@),
{
    if i > s.len() || pat.len() > s.len() - i {
        return false;
    }
    let n = s.len();
    let mut k: usize = 0;
    while k < pat.len()
        invariant
            k <= pat@.len(),
            i + pat@.len() <= n,
            n == s@.len(),
            forall|m: int| 0 <= m < k ==> s@[i + m] == pat@[m],
        decreases pat@.len() - k,
    {
        if s[i + k] != pat[k] {
            proof {
                assert(s@.subrange(i as int, i + pat@.len())[k as int] == s@[i + k]);
            }
            return false;
        }
        k += 1;
    }
    proof {
        assert(s@.subrange(i as int, i + pat@.len()) =~= pat@);
    }
    true
}

/// The position of the first occurrence of `pat` in `s` at or after `from`.
pub open spec fn spec_find_at(s: Seq<char>, from: int, pat: Seq<char>) -> Option<int>
    decreases s.len() - from,
{
    if from < 0 || from + pat.len() > s.len() {
        None
    } else if pat.len() == 0 {
        Some(from)
    } else if at_pos(s, from, pat) {
        Some(from)
    } else {
        spec_find_at(s, from + 1, pat)
    }
}

pub proof fn lemma_find_at_bounds(s: Seq<char>, from: int, pat: Seq<char>)
    requires
        spec_find_at(s, from, pat) is Some,
    ensures
        from <= spec_find_at(s, from, pat)->0,
        spec_find_at(s, from, pat)->0 + pat.len() <= s.len(),
        at_pos(s, spec_find_at(s, from, pat)->0, pat),
    decreases s.len() - from,
{
    if !(from < 0 || from + pat.len() > s.len()) {
        if pat.len() == 0 {
            assert(s.subrange(from, from) =~= pat);
        } else if !at_pos(s, from, pat) {
            lemma_find_at_bounds(s, from + 1, pat);
        }
    }
}

pub fn find_at(s: &Vec<char>, from: usize, pat: &Vec<char>) -> (r: Option<usize>)
    ensures
        match r {
            Some(k) => spec_find_at(s@, from as int, pat@) == Some(k as int),
            None => spec_find_at(s@, from as int, pat@) is None,
        },
{
    let mut i: usize = from;
    if pat.len() == 0 {
        if from <= s.len() {
            return Some(from);
        } else {
            return None;
        }
    }
    if i > s.len() || pat.len() > s.len() - i {
        return None;
    }
    loop
        invariant
            from <= i,
            pat@.len() > 0,
            i + pat@.len() <= s@.len(),
            spec_find_at(s@, from as int, pat@) == spec_find_at(s@, i as int, pat@),
        decreases s@.len() - i,
    {
        if check_at(s, i, pat) {
            return Some(i);
        }
        if pat.len() == s.len() - i {
            proof {
                assert(spec_find_at(s@, i as int, pat@) == spec_find_at(s@, i + 1, pat@));
                assert(spec_find_at(s@, i + 1, pat@) is None);
            }
            return None;
        }
        i += 1;
    }
}

/// Whether `s` contains `pat` as a contiguous subsequence.
pub open spec fn spec_contains(s: Seq<char>, pat: Seq<char>) -> bool {
    spec_find_at(s, 0, pat) is Some
}

pub fn contains_sub(s: &Vec<char>, pat: &Vec<char>) -> (r: bool)
    ensures
        r == spec_contains(s@, pat@),
{
    find_at(s, 0, pat).is_some()
}

/// The result of replacing every occurrence of `old` with `new`, scanning
/// left to right over non-overlapping matches, as `str::replace` does.  An
/// empty `old` matches before every character and at the end.
pub open spec fn spec_replace(s: Seq<char>, old: Seq<char>, new: Seq<char>) -> Seq<char>
    decreases s.len(),
{
    if old.len() == 0 {
        if s.len() == 0 {
            new
        } else {
            new + s.take(1) + spec_replace(s.skip(1), old, new)
        }
    } else if s.len() == 0 {
        Seq::empty()
    } else if at_pos(s, 0, old) {
        new + spec_replace(s.skip(old.len() as int), old, new)
    } else {
        s.take(1) + spec_replace(s.skip(1), old, new)
    }
}

/// Replaces every occurrence of `old` with `new`, as `str::replace` does.
pub fn replace_chars(s: &Vec<char>, old: &Vec<char>, new: &Vec<char>) -> (r: Vec<char>)
    ensures
        r@ == spec_replace(s@, old@, new@),
{
    let mut out: Vec<char> = Vec::new();
    let mut i: usize = 0;
    proof {
        assert(s@.skip(0) =~= s@);
    }
    while i < s.len()
        invariant
            i <= s@.len(),
            out@ + spec_replace(s@.skip(i as int), old@, new@) == spec_replace(s@, old@, new@),
        decreases s@.len() - i,
    {
        let ghost rem = s@.skip(i as int);
        if old.len() == 0 {
            let mut piece = subvec(new, 0, new.len());
            out.append(&mut piece);
            out.push(s[i]);
            proof {
                assert(rem.take(1) =~= seq![s@[i as int]]);
                assert(rem.skip(1) =~= s@.skip(i + 1));
                assert(out@ + spec_replace(s@.skip(i + 1), old@, new@) =~= spec_replace(
                    s@,
                    old@,
                    new@,
                ));
            }
            i += 1;
        } else if check_at(s, i, old) {
            let mut piece = subvec(new, 0, new.len());
            out.append(&mut piece);
            proof {
                assert(rem.subrange(0, old@.len() as int) =~= s@.subrange(
                    i as int,
                    i + old@.len(),
                ));
                assert(at_pos(rem, 0, old@));
                assert(rem.skip(old@.len() as int) =~= s@.skip(i + old@.len()));
                assert(out@ + spec_replace(s@.skip(i + old@.len()), old@, new@) =~= spec_replace(
                    s@,
                    old@,
                    new@,
                ));
            }
            i += old.len();
        } else {
            proof {
                if at_pos(rem, 0, old@) {
                    assert(rem.subrange(0, old@.len() as int) =~= s@.subrange(
                        i as int,
                        i + old@.len(),
                    ));
                    assert(at_pos(s@, i as int, old@));
                }
            }
            out.push(s[i]);
            proof {
                assert(rem.take(1) =~= seq![s@[i as int]]);
                assert(rem.skip(1) =~= s@.skip(i + 1));
                assert(out@ + spec_replace(s@.skip(i + 1), old@, new@) =~= spec_replace(
                    s@,
                    old@,
                    new@,
                ));
            }
            i += 1;
        }
    }
    if old.len() == 0 {
        let mut piece = subvec(new, 0, new.len());
        out.append(&mut piece);
    }
    proof {
        assert(s@.skip(s@.len() as int) =~= Seq::<char>::empty());
        assert(out@ =~= spec_replace(s@, old@, new@));
    }
    out
}

/// Relies on `char::from_u32`: a Unicode scalar value converts to the
/// character with exactly that value (the precondition excludes surrogates
/// and out-of-range values, for which it would return nothing).
#[verifier::external_body]
pub fn char_from_code(code: u32) -> (r: char)
    requires
        code < 0xD800 || (0xE000 <= code && code <= 0x10FFFF),
    ensures
        r as u32 == code,
{
    char::from_u32(code).unwrap_or(' ')
}

/// The number of leading whitespace characters.
pub open spec fn ws_prefix_len(s: Seq<char>) -> int
    decreases s.len(),
{
    if s.len() == 0 || !spec_is_ws(s[0]) {
        0
    } else {
        1 + ws_prefix_len(s.drop_first())
    }
}

pub proof fn lemma_ws_prefix(s: Seq<char>, i: int)
    requires
        0 <= i <= s.len(),
        forall|k: int| 0 <= k < i ==> spec_is_ws(s[k]),
        i < s.len() ==> !spec_is_ws(s[i]),
    ensures
        ws_prefix_len(s) == i,
    decreases i,
{
    if i > 0 {
        lemma_ws_prefix(s.drop_first(), i - 1);
    }
}

/// The string with leading and trailing whitespace removed, as `str::trim`
/// does for ASCII text.
pub open spec fn spec_trim(s: Seq<char>) -> Seq<char> {
    let a = ws_prefix_len(s);
    let rest = s.skip(a);
    let b = ws_prefix_len(rest.reverse());
    rest.take(rest.len() - b)
}

pub fn trim_chars(s: &Vec<char>) -> (r: Vec<char>)
    ensures
        r@ == spec_trim(s@),
{
    let mut a: usize = 0;
    while a < s.len() && is_ws(s[a])
        invariant
            a <= s@.len(),
            forall|k: int| 0 <= k < a ==> spec_is_ws(s@[k]),
        decreases s@.len() - a,
    {
        a += 1;
    }
    proof {
        lemma_ws_prefix(s@, a as int);
    }
    let mut b: usize = s.len();
    while b > a && is_ws(s[b - 1])
        invariant
            a <= b <= s@.len(),
            forall|k: int| b <= k < s@.len() ==> spec_is_ws(s@[k]),
            a < s@.len() ==> !spec_is_ws(s@[a as int]),
            a == ws_prefix_len(s@),
        decreases b,
    {
        b -= 1;
    }
    proof {
        let rest = s@.skip(a as int);
        let rev = rest.reverse();
        assert forall|k: int| 0 <= k < s@.len() - b implies spec_is_ws(rev[k]) by {
            assert(rev[k] == rest[rest.len() - 1 - k]);
        }
        if b > a {
            assert(!spec_is_ws(rev[(s@.len() - b) as int])) by {
                assert(rev[(s@.len() - b) as int] == rest[b - 1 - a]);
            }
        }
        lemma_ws_prefix(rev, s@.len() - b);
    }
    let r = subvec(s, a, b);
    proof {
        assert(r@ =~= spec_trim(s@));
    }
    r
}

} // verus!
