use vstd::prelude::*;

use crate::chars::chars_of;

verus! {

/// Lexicographic order of character sequences by code point, the order of
/// `String`'s `Ord` (UTF-8 keeps code point order byte by byte).
pub open spec fn seq_less(a: Seq<char>, b: Seq<char>) -> bool
    decreases a.len(),
{
    if a.len() == 0 {
        b.len() > 0
    } else if b.len() == 0 {
        false
    } else if a[0] != b[0] {
        (a[0] as u32) < (b[0] as u32)
    } else {
        seq_less(a.drop_first(), b.drop_first())
    }
}

pub proof fn lemma_seq_less_irreflexive(a: Seq<char>)
    ensures
        !seq_less(a, a),
    decreases a.len(),
{
    if a.len() > 0 {
        lemma_seq_less_irreflexive(a.drop_first());
    }
}

pub proof fn lemma_seq_less_transitive(a: Seq<char>, b: Seq<char>, c: Seq<char>)
    requires
        seq_less(a, b),
        seq_less(b, c),
    ensures
        seq_less(a, c),
    decreases a.len(),
{
    if a.len() > 0 && b.len() > 0 && c.len() > 0 && a[0] == b[0] && b[0] == c[0] {
        lemma_seq_less_transitive(a.drop_first(), b.drop_first(), c.drop_first());
    }
}

pub proof fn lemma_seq_less_total(a: Seq<char>, b: Seq<char>)
    requires
        a != b,
    ensures
        seq_less(a, b) || seq_less(b, a),
    decreases a.len(),
{
    if a.len() > 0 && b.len() > 0 && a[0] == b[0] {
        if a.drop_first() == b.drop_first() {
            assert(a == seq![a[0]] + a.drop_first());
            assert(b == seq![b[0]] + b.drop_first());
        }
        lemma_seq_less_total(a.drop_first(), b.drop_first());
    } else if a.len() == 0 && b.len() == 0 {
        assert(a == b);
    } else if a.len() > 0 && b.len() > 0 {
        let x = a[0] as u32;
        let y = b[0] as u32;
        assert(x != y) by {
            if x == y {
                vstd::utf8::char_u32_cast(a[0], x);
                vstd::utf8::char_u32_cast(b[0], y);
            }
        }
    }
}

/// Whether `a` comes before `b`.
pub fn chars_less(a: &Vec<char>, b: &Vec<char>) -> (r: bool)
    ensures
        r == seq_less(a@, b@),
{
    let mut i: usize = 0;
    assert(a@.skip(0) == a@);
    assert(b@.skip(0) == b@);
    while i < a.len() && i < b.len() && a[i] == b[i]
        invariant
            i <= a@.len(),
            i <= b@.len(),
            seq_less(a@.skip(i as int), b@.skip(i as int)) == seq_less(a@, b@),
        decreases a.len() - i,
    {
        assert(a@.skip(i as int).drop_first() == a@.skip(i + 1));
        assert(b@.skip(i as int).drop_first() == b@.skip(i + 1));
        i = i + 1;
    }
    assert(a@.skip(i as int).len() == a@.len() - i);
    if i < a.len() && i < b.len() {
        assert(a@.skip(i as int)[0] == a@[i as int]);
        assert(b@.skip(i as int)[0] == b@[i as int]);
        (a[i] as u32) < (b[i] as u32)
    } else {
        i == a.len() && i < b.len()
    }
}

/// Whether `s` is strictly increasing.
pub open spec fn strictly_sorted(s: Seq<Seq<char>>) -> bool {
    forall|i: int, j: int| 0 <= i < j < s.len() ==> seq_less(#[trigger] s[i], #[trigger] s[j])
}

/// The views of a list of strings.
pub open spec fn str_views(v: Seq<String>) -> Seq<Seq<char>> {
    v.map_values(|x: String| x@)
}

/// Adds `x` to the strictly increasing `v` unless it is there already.
pub(crate) fn insert_sorted_unique(v: &mut Vec<String>, x: String)
    requires
        strictly_sorted(str_views(old(v)@)),
    ensures
        strictly_sorted(str_views(final(v)@)),
        forall|y: Seq<char>|
            str_views(final(v)@).contains(y) <==> (str_views(old(v)@).contains(y) || y == x@),
{
    let xc = chars_of(x.as_str());
    let ghost s = str_views(v@);
    let mut p: usize = 0;
    while p < v.len() && chars_less(&chars_of(v[p].as_str()), &xc)
        invariant
            p <= v@.len(),
            s == str_views(v@),
            xc@ == x@,
            forall|i: int| 0 <= i < p ==> seq_less(#[trigger] s[i], x@),
        decreases v.len() - p,
    {
        p = p + 1;
    }
    if p < v.len() {
        let cur = chars_of(v[p].as_str());
        if crate::paths::chars_eq(&cur, &xc) {
            assert(s[p as int] == x@);
            return;
        }
        proof {
            lemma_seq_less_total(s[p as int], x@);
            assert(seq_less(x@, s[p as int]));
            assert forall|j: int| p <= j < s.len() implies seq_less(x@, #[trigger] s[j]) by {
                if j > p {
                    lemma_seq_less_transitive(x@, s[p as int], s[j]);
                }
            }
        }
    }
    v.insert(p, x);
    proof {
        let t = str_views(v@);
        assert(t == s.insert(p as int, x@));
        assert forall|i: int, j: int| 0 <= i < j < t.len() implies seq_less(#[trigger] t[i], #[trigger] t[j]) by {
            if j < p {
            } else if j == p {
            } else if i < p {
                lemma_seq_less_transitive(s[i], x@, s[j - 1]);
            } else if i == p {
            } else {
            }
        }
        assert forall|y: Seq<char>| t.contains(y) <==> (s.contains(y) || y == x@) by {
            if t.contains(y) {
                let k = choose|k: int| 0 <= k < t.len() && t[k] == y;
                if k < p {
                    assert(s[k] == y);
                } else if k > p {
                    assert(s[k - 1] == y);
                }
            }
            if s.contains(y) {
                let k = choose|k: int| 0 <= k < s.len() && s[k] == y;
                if k < p {
                    assert(t[k] == y);
                } else {
                    assert(t[k + 1] == y);
                }
            }
            if y == x@ {
                assert(t[p as int] == y);
            }
        }
    }
}

} // verus!
