//! Text as sequences of characters: lexicographic order, suffixes, and the
//! executable helpers that compute them on `&str`.

use vstd::prelude::*;
use vstd::std_specs::iter::IteratorSpec;

verus! {

/// The code point of a character: the number by which characters are ordered.
pub open spec fn code(c: char) -> int {
    c as u32 as int
}

/// `a` and `b` hold the same characters at every position below `k`.
pub open spec fn agree_before(a: Seq<char>, b: Seq<char>, k: int) -> bool {
    &&& 0 <= k <= a.len()
    &&& k <= b.len()
    &&& forall|i: int| 0 <= i < k ==> a[i] == b[i]
}

/// Position `k` decides that `a` comes before `b`: they agree before `k`, and
/// at `k` either `a` has ended while `b` goes on, or `a` holds the smaller
/// character.
pub open spec fn precedes_at(a: Seq<char>, b: Seq<char>, k: int) -> bool {
    &&& agree_before(a, b, k)
    &&& (k == a.len() && k < b.len()) || (k < a.len() && k < b.len() && code(a[k]) < code(b[k]))
}

/// Strict lexicographic order on text, character by character by code point.
pub open spec fn lex_lt(a: Seq<char>, b: Seq<char>) -> bool {
    exists|k: int| precedes_at(a, b, k)
}

/// `a` comes before `b` by a character: at the first position where they
/// part, both go on and `a` holds the smaller character.
pub open spec fn parts_below(a: Seq<char>, b: Seq<char>) -> bool {
    exists|k: int|
        agree_before(a, b, k) && k < a.len() && k < b.len() && code(#[trigger] a[k]) < code(b[k])
}

/// Characters with the same code point are the same character.
pub proof fn lemma_code_injective(c: char, d: char)
    ensures
        code(c) == code(d) ==> c == d,
{
    vstd::utf8::char_u32_cast(c, c as u32);
    vstd::utf8::char_u32_cast(d, d as u32);
}

/// Only the first position at which two texts part can decide their order:
/// once `a` and `b` agree before `k` and part at `k`, `a` comes before `b`
/// exactly if position `k` says so.
pub proof fn lemma_decided_at(a: Seq<char>, b: Seq<char>, k: int)
    requires
        agree_before(a, b, k),
        k == a.len() || k == b.len() || a[k] != b[k],
    ensures
        lex_lt(a, b) <==> precedes_at(a, b, k),
{
    if lex_lt(a, b) {
        let j = choose|j: int| precedes_at(a, b, j);
        if j < k {
            assert(a[j] == b[j]);
        } else if j > k {
            assert(a[k] == b[k]);
        }
    }
}

/// The first position at which `a` and `b` part, or the length of the
/// shorter one where one is the beginning of the other.
pub proof fn lemma_parting(a: Seq<char>, b: Seq<char>, from: int) -> (k: int)
    requires
        agree_before(a, b, from),
    ensures
        agree_before(a, b, k),
        k == a.len() || k == b.len() || a[k] != b[k],
    decreases a.len() - from,
{
    if from == a.len() || from == b.len() || a[from] != b[from] {
        from
    } else {
        lemma_parting(a, b, from + 1)
    }
}

/// Of two different texts one comes before the other.
pub proof fn lemma_lex_connected(a: Seq<char>, b: Seq<char>)
    ensures
        a == b || lex_lt(a, b) || lex_lt(b, a),
{
    let k = lemma_parting(a, b, 0);
    if k == a.len() && k == b.len() {
        assert(a =~= b);
    } else if k < a.len() && k < b.len() {
        lemma_code_injective(a[k], b[k]);
        if code(a[k]) < code(b[k]) {
            assert(precedes_at(a, b, k));
        } else {
            assert(precedes_at(b, a, k));
        }
    } else if k == a.len() {
        assert(precedes_at(a, b, k));
    } else {
        assert(precedes_at(b, a, k));
    }
}

/// No text comes before itself, and no two texts come before each other.
pub proof fn lemma_lex_asymmetric(a: Seq<char>, b: Seq<char>)
    ensures
        !(lex_lt(a, b) && lex_lt(b, a)),
        !lex_lt(a, a),
{
    if lex_lt(a, b) && lex_lt(b, a) {
        let k = choose|k: int| precedes_at(a, b, k);
        lemma_decided_at(b, a, k);
    }
    if lex_lt(a, a) {
        let k = choose|k: int| precedes_at(a, a, k);
    }
}

/// The order is transitive.
pub proof fn lemma_lex_transitive(a: Seq<char>, b: Seq<char>, c: Seq<char>)
    requires
        lex_lt(a, b),
        lex_lt(b, c),
    ensures
        lex_lt(a, c),
{
    let k1 = choose|k: int| precedes_at(a, b, k);
    let k2 = choose|k: int| precedes_at(b, c, k);
    if k1 <= k2 {
        assert(precedes_at(a, c, k1));
    } else {
        assert(a[k2] == b[k2]);
        assert(precedes_at(a, c, k2));
    }
}

/// Texts that part by a character keep their order whatever common text
/// stands before them and whatever texts follow them.
pub proof fn lemma_parts_below_in_context(
    before: Seq<char>,
    a: Seq<char>,
    b: Seq<char>,
    after_a: Seq<char>,
    after_b: Seq<char>,
)
    requires
        parts_below(a, b),
    ensures
        parts_below(before + a + after_a, before + b + after_b),
        lex_lt(before + a + after_a, before + b + after_b),
{
    let k = choose|k: int|
        agree_before(a, b, k) && k < a.len() && k < b.len() && code(#[trigger] a[k]) < code(b[k]);
    let x = before + a + after_a;
    let y = before + b + after_b;
    let at = before.len() + k;
    assert forall|i: int| 0 <= i < at implies x[i] == y[i] by {
        if i >= before.len() {
            assert(x[i] == a[i - before.len()]);
            assert(y[i] == b[i - before.len()]);
        }
    }
    assert(x[at] == a[k]);
    assert(y[at] == b[k]);
    assert(agree_before(x, y, at));
    assert(precedes_at(x, y, at));
}

/// The characters of `s`, in order.
pub fn chars_of(s: &str) -> (v: Vec<char>)
    ensures
        v@ == s@,
{
    let mut v: Vec<char> = Vec::new();
    for c in it: s.chars()
        invariant
            it.seq() == s@,
            v@ == s@.take(it.index()),
    {
        v.push(c);
    }
    v
}

/// Whether `a` comes strictly before `b` in lexicographic order.
pub fn text_lt(a: &str, b: &str) -> (r: bool)
    ensures
        r == lex_lt(a@, b@),
{
    let x = chars_of(a);
    let y = chars_of(b);
    let mut i: usize = 0;
    while i < x.len() && i < y.len()
        invariant
            x@ == a@,
            y@ == b@,
            agree_before(a@, b@, i as int),
        decreases x.len() - i,
    {
        let p: u32 = x[i] as u32;
        let q: u32 = y[i] as u32;
        if p != q {
            proof {
                lemma_decided_at(a@, b@, i as int);
            }
            return p < q;
        }
        proof {
            lemma_code_injective(x[i as int], y[i as int]);
        }
        i = i + 1;
    }
    proof {
        lemma_decided_at(a@, b@, i as int);
    }
    i == x.len() && i < y.len()
}

/// Whether `a` and `b` are the same text.
pub fn same_text(a: &str, b: &str) -> (r: bool)
    ensures
        r == (a@ == b@),
{
    let x = chars_of(a);
    let y = chars_of(b);
    if x.len() != y.len() {
        return false;
    }
    let mut i: usize = 0;
    while i < x.len()
        invariant
            x@ == a@,
            y@ == b@,
            x.len() == y.len(),
            agree_before(a@, b@, i as int),
        decreases x.len() - i,
    {
        if x[i] != y[i] {
            return false;
        }
        i = i + 1;
    }
    assert(a@ =~= b@);
    true
}

/// Whether `s` ends in `suffix`.
pub fn has_suffix(s: &str, suffix: &str) -> (r: bool)
    ensures
        r == suffix@.is_suffix_of(s@),
{
    let x = chars_of(s);
    let y = chars_of(suffix);
    if y.len() > x.len() {
        return false;
    }
    let start: usize = x.len() - y.len();
    let ghost tail = s@.subrange(start as int, s@.len() as int);
    let mut i: usize = 0;
    while i < y.len()
        invariant
            x@ == s@,
            y@ == suffix@,
            start + y.len() == x.len(),
            tail == s@.subrange(start as int, s@.len() as int),
            agree_before(suffix@, tail, i as int),
        decreases y.len() - i,
    {
        if x[start + i] != y[i] {
            assert(tail[i as int] != suffix@[i as int]);
            return false;
        }
        i = i + 1;
    }
    assert(suffix@ =~= tail);
    true
}

} // verus!
