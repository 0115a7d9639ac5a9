//! JSON values and their canonical form: every object's entries in key
//! order, at every depth, so that equal catalogs encode to equal bytes.
use vstd::prelude::*;

use crate::chars::chars_of;
use crate::order::{chars_less, seq_less};
use crate::stable::{as_ints, lemma_stable_sort_len, positions_below, sort_positions, stable_sort};

verus! {

/// A JSON value; a number is held as its text.
pub enum JsonValue {
    Null,
    Bool(bool),
    Number(String),
    Str(String),
    Array(Vec<JsonValue>),
    Object(Vec<(String, JsonValue)>),
}

/// The mathematical form of a JSON value.
pub enum JsonView {
    Null,
    Bool(bool),
    Number(Seq<char>),
    Str(Seq<char>),
    Array(Seq<JsonView>),
    Object(Seq<(Seq<char>, JsonView)>),
}

pub open spec fn json_view(v: JsonValue) -> JsonView
    decreases v,
{
    match v {
        JsonValue::Null => JsonView::Null,
        JsonValue::Bool(b) => JsonView::Bool(b),
        JsonValue::Number(n) => JsonView::Number(n@),
        JsonValue::Str(s) => JsonView::Str(s@),
        JsonValue::Array(a) => JsonView::Array(json_views(a@)),
        JsonValue::Object(es) => JsonView::Object(entry_views(es@)),
    }
}

pub open spec fn json_views(s: Seq<JsonValue>) -> Seq<JsonView>
    decreases s,
{
    if s.len() == 0 {
        Seq::empty()
    } else {
        json_views(s.drop_last()).push(json_view(s.last()))
    }
}

pub open spec fn entry_views(s: Seq<(String, JsonValue)>) -> Seq<(Seq<char>, JsonView)>
    decreases s,
{
    if s.len() == 0 {
        Seq::empty()
    } else {
        entry_views(s.drop_last()).push((s.last().0@, json_view(s.last().1)))
    }
}

/// Entries ordered by key.
pub open spec fn key_before(es: Seq<(Seq<char>, JsonView)>) -> spec_fn(int, int) -> bool {
    |a: int, b: int| seq_less(es[a].0, es[b].0)
}

/// `es` sorted by key, entries of equal keys in their order.
pub open spec fn sort_entries(es: Seq<(Seq<char>, JsonView)>) -> Seq<(Seq<char>, JsonView)> {
    stable_sort(key_before(es), Seq::new(es.len(), |i: int| i)).map_values(|i: int| es[i])
}

/// The canonical form of a value: arrays keep their order, objects have
/// their entries sorted by key, at every depth.
pub open spec fn canon(v: JsonView) -> JsonView
    decreases v,
{
    match v {
        JsonView::Array(s) => JsonView::Array(canon_list(s)),
        JsonView::Object(es) => JsonView::Object(sort_entries(canon_entries(es))),
        _ => v,
    }
}

pub open spec fn canon_list(s: Seq<JsonView>) -> Seq<JsonView>
    decreases s,
{
    if s.len() == 0 {
        s
    } else {
        canon_list(s.drop_last()).push(canon(s.last()))
    }
}

pub open spec fn canon_entries(es: Seq<(Seq<char>, JsonView)>) -> Seq<(Seq<char>, JsonView)>
    decreases es,
{
    if es.len() == 0 {
        es
    } else {
        canon_entries(es.drop_last()).push((es.last().0, canon(es.last().1)))
    }
}

proof fn lemma_entry_views_index(s: Seq<(String, JsonValue)>)
    ensures
        entry_views(s).len() == s.len(),
        forall|i: int| 0 <= i < s.len() ==> #[trigger] entry_views(s)[i] == (s[i].0@, json_view(s[i].1)),
    decreases s.len(),
{
    if s.len() > 0 {
        lemma_entry_views_index(s.drop_last());
    }
}

/// A copy of a value.
fn clone_json(v: &JsonValue) -> (r: JsonValue)
    ensures
        json_view(r) == json_view(*v),
    decreases v,
{
    match v {
        JsonValue::Null => JsonValue::Null,
        JsonValue::Bool(b) => JsonValue::Bool(*b),
        JsonValue::Number(n) => JsonValue::Number(n.clone()),
        JsonValue::Str(s) => JsonValue::Str(s.clone()),
        JsonValue::Array(a) => {
            let mut out: Vec<JsonValue> = Vec::new();
            let mut i: usize = 0;
            while i < a.len()
                invariant
                    i <= a@.len(),
                    *v == JsonValue::Array(*a),
                    json_views(out@) == json_views(a@.take(i as int)),
                decreases a.len() - i,
            {
                assert(a@.take(i + 1).drop_last() == a@.take(i as int));
                assert(decreases_to!(*v => v->Array_0));
                assert(decreases_to!(v->Array_0 => a@));
                assert(decreases_to!(a@ => a@[i as int]));
                assert(decreases_to!(*v => a@[i as int]));
                let c = clone_json(&a[i]);
                let ghost before = out@;
                out.push(c);
                assert(out@.drop_last() == before);
                i = i + 1;
            }
            assert(a@.take(a@.len() as int) == a@);
            JsonValue::Array(out)
        },
        JsonValue::Object(es) => {
            let mut out: Vec<(String, JsonValue)> = Vec::new();
            let mut i: usize = 0;
            while i < es.len()
                invariant
                    i <= es@.len(),
                    *v == JsonValue::Object(*es),
                    entry_views(out@) == entry_views(es@.take(i as int)),
                decreases es.len() - i,
            {
                assert(es@.take(i + 1).drop_last() == es@.take(i as int));
                assert(decreases_to!(*v => v->Object_0));
                assert(decreases_to!(v->Object_0 => es@));
                assert(decreases_to!(es@ => es@[i as int]));
                assert(decreases_to!(es@[i as int] => es@[i as int].1));
                assert(decreases_to!(*v => es@[i as int].1));
                let c = clone_json(&es[i].1);
                let ghost before = out@;
                out.push((es[i].0.clone(), c));
                assert(out@.drop_last() == before);
                i = i + 1;
            }
            assert(es@.take(es@.len() as int) == es@);
            JsonValue::Object(out)
        },
    }
}

/// The canonical form of `value`: the same value with the entries of every
/// object, at every depth, sorted by key.
pub fn canonical_json(value: JsonValue) -> (r: JsonValue)
    ensures
        json_view(r) == canon(json_view(value)),
    decreases value,
{
    let ghost whole = value;
    match value {
        JsonValue::Array(values) => {
            let ghost orig = values@;
            let mut rest = values;
            let mut out: Vec<JsonValue> = Vec::new();
            while rest.len() > 0
                invariant
                    whole == value,
                    whole matches JsonValue::Array(w) && w@ == orig,
                    out@.len() + rest@.len() == orig.len(),
                    rest@ == orig.skip(out@.len() as int),
                    json_views(out@) == canon_list(json_views(orig.take(out@.len() as int))),
                decreases rest.len(),
            {
                let ghost k = out@.len() as int;
                let x = rest.remove(0);
                assert(x == orig[k]);
                assert(orig.take(k + 1).drop_last() == orig.take(k));
                assert(decreases_to!(whole => whole->Array_0));
                assert(decreases_to!(whole->Array_0 => whole->Array_0@));
                assert(decreases_to!(whole->Array_0@ => orig[k]));
                assert(decreases_to!(whole => orig[k]));
                let c = canonical_json(x);
                let ghost before = out@;
                out.push(c);
                proof {
                    assert(out@.drop_last() == before);
                    let t = json_views(orig.take(k + 1));
                    assert(t == json_views(orig.take(k)).push(json_view(orig[k])));
                    assert(t.drop_last() == json_views(orig.take(k)));
                    assert(canon_list(t) == canon_list(json_views(orig.take(k))).push(canon(json_view(orig[k]))));
                    assert(json_views(out@) == json_views(before).push(json_view(c)));
                }
                assert(rest@ == orig.skip(k + 1));
            }
            assert(orig.take(orig.len() as int) == orig);
            JsonValue::Array(out)
        },
        JsonValue::Object(entries) => {
            let ghost orig = entries@;
            let mut rest = entries;
            let mut canon_es: Vec<(String, JsonValue)> = Vec::new();
            while rest.len() > 0
                invariant
                    whole == value,
                    whole matches JsonValue::Object(w) && w@ == orig,
                    canon_es@.len() + rest@.len() == orig.len(),
                    rest@ == orig.skip(canon_es@.len() as int),
                    entry_views(canon_es@) == canon_entries(entry_views(orig.take(canon_es@.len() as int))),
                decreases rest.len(),
            {
                let ghost k = canon_es@.len() as int;
                let (key, x) = rest.remove(0);
                assert(x == orig[k].1);
                assert(orig.take(k + 1).drop_last() == orig.take(k));
                assert(decreases_to!(whole => whole->Object_0));
                assert(decreases_to!(whole->Object_0 => whole->Object_0@));
                assert(decreases_to!(whole->Object_0@ => orig[k]));
                assert(decreases_to!(orig[k] => orig[k].1));
                assert(decreases_to!(whole => orig[k].1));
                let c = canonical_json(x);
                let ghost before = canon_es@;
                canon_es.push((key, c));
                proof {
                    assert(canon_es@.drop_last() == before);
                    let t = entry_views(orig.take(k + 1));
                    assert(t == entry_views(orig.take(k)).push((orig[k].0@, json_view(orig[k].1))));
                    assert(t.drop_last() == entry_views(orig.take(k)));
                    assert(canon_entries(t) == canon_entries(entry_views(orig.take(k))).push((orig[k].0@, canon(json_view(orig[k].1)))));
                    assert(entry_views(canon_es@) == entry_views(before).push((key@, json_view(c))));
                }
                assert(rest@ == orig.skip(k + 1));
            }
            assert(orig.take(orig.len() as int) == orig);
            let ghost ev = entry_views(canon_es@);
            proof {
                lemma_entry_views_index(canon_es@);
            }
            let n = canon_es.len();
            let mut keys: Vec<Vec<char>> = Vec::new();
            let mut i: usize = 0;
            while i < n
                invariant
                    i <= n,
                    n == canon_es@.len(),
                    ev == entry_views(canon_es@),
                    ev.len() == n,
                    forall|j: int| 0 <= j < n ==> #[trigger] ev[j] == (canon_es@[j].0@, json_view(canon_es@[j].1)),
                    keys@.len() == i,
                    forall|j: int| 0 <= j < i ==> (#[trigger] keys@[j])@ == ev[j].0,
                decreases n - i,
            {
                keys.push(chars_of(canon_es[i].0.as_str()));
                i = i + 1;
            }
            let all = positions_below(n);
            let order = sort_positions(
                &all,
                Ghost(key_before(ev)),
                n,
                (|a: usize, b: usize| -> (r: bool)
                    requires
                        a < n && b < n,
                        keys@.len() == n,
                        ev.len() == n,
                        forall|j: int| 0 <= j < n ==> (#[trigger] keys@[j])@ == ev[j].0,
                    ensures
                        r == key_before(ev)(a as int, b as int),
                    { chars_less(&keys[a], &keys[b]) }),
            );
            assert(as_ints(all@) =~= Seq::new(n as nat, |i: int| i));
            let ghost sorted = stable_sort(key_before(ev), Seq::new(n as nat, |i: int| i));
            proof {
                lemma_stable_sort_len(key_before(ev), Seq::new(n as nat, |i: int| i));
            }
            assert(order@.len() == n);
            let mut out: Vec<(String, JsonValue)> = Vec::new();
            let mut j: usize = 0;
            while j < order.len()
                invariant
                    j <= order@.len(),
                    n == canon_es@.len(),
                    ev == entry_views(canon_es@),
                    ev.len() == n,
                    forall|t: int| 0 <= t < n ==> #[trigger] ev[t] == (canon_es@[t].0@, json_view(canon_es@[t].1)),
                    as_ints(order@) == sorted,
                    sorted == stable_sort(key_before(ev), Seq::new(n as nat, |i: int| i)),
                    sorted.len() == n,
                    order@.len() == n,
                    forall|t: int| 0 <= t < order@.len() ==> (#[trigger] order@[t]) < n,
                    entry_views(out@) == sort_entries(ev).take(j as int),
                decreases order.len() - j,
            {
                let p = order[j];
                let c = clone_json(&canon_es[p].1);
                let ghost before = out@;
                out.push((canon_es[p].0.clone(), c));
                proof {
                    assert(out@.drop_last() == before);
                    assert(sorted[j as int] == p as int);
                    assert(ev.len() == n);
                    assert(Seq::new(ev.len(), |i: int| i) =~= Seq::new(n as nat, |i: int| i));
                    assert(sort_entries(ev) == sorted.map_values(|i: int| ev[i]));
                    assert(sort_entries(ev).len() == n);
                    assert(sort_entries(ev)[j as int] == ev[p as int]);
                    assert(sort_entries(ev).take(j + 1) == sort_entries(ev).take(j as int).push(ev[p as int]));
                }
                j = j + 1;
            }
            assert(sort_entries(ev).take(n as int) == sort_entries(ev));
            JsonValue::Object(out)
        },
        other => other,
    }
}

} // verus!
