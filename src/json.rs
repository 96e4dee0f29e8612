//! A JSON value tree and the recursive key normalization applied to request
//! bodies before typed decoding.
use vstd::prelude::*;
use crate::text::{canonical_key, process_key};

verus! {

broadcast use vstd::std_specs::vec::group_vec_axioms, vstd::seq::group_seq_axioms;

/// Numbers are carried through unchanged; their contents are never read.
#[verifier::external_type_specification]
#[verifier::external_body]
pub struct ExNumber(serde_json::Number);

/// A JSON value. Objects keep their members in insertion order.
pub enum Json {
    Null,
    Bool(bool),
    Number(serde_json::Number),
    Str(String),
    Array(Vec<Json>),
    Object(Vec<(String, Json)>),
}

/// The mathematical model of a JSON value.
pub enum JsonModel {
    Null,
    Bool(bool),
    Number(serde_json::Number),
    Str(Seq<char>),
    Array(Seq<JsonModel>),
    Object(Seq<(Seq<char>, JsonModel)>),
}

pub open spec fn json_view(j: Json) -> JsonModel
    decreases j,
{
    match j {
        Json::Null => JsonModel::Null,
        Json::Bool(b) => JsonModel::Bool(b),
        Json::Number(n) => JsonModel::Number(n),
        Json::Str(s) => JsonModel::Str(s@),
        Json::Array(v) => JsonModel::Array(seq_view(v@)),
        Json::Object(v) => JsonModel::Object(entries_view(v@)),
    }
}

pub open spec fn seq_view(s: Seq<Json>) -> Seq<JsonModel>
    decreases s,
{
    if s.len() == 0 {
        Seq::empty()
    } else {
        seq_view(s.drop_last()).push(json_view(s.last()))
    }
}

pub open spec fn entries_view(s: Seq<(String, Json)>) -> Seq<(Seq<char>, JsonModel)>
    decreases s,
{
    if s.len() == 0 {
        Seq::empty()
    } else {
        entries_view(s.drop_last()).push((s.last().0@, json_view(s.last().1)))
    }
}

impl View for Json {
    type V = JsonModel;

    open spec fn view(&self) -> JsonModel {
        json_view(*self)
    }
}


pub proof fn lemma_seq_view_index(s: Seq<Json>)
    ensures
        seq_view(s).len() == s.len(),
        forall|i: int| 0 <= i < s.len() ==> #[trigger] seq_view(s)[i] == json_view(s[i]),
    decreases s.len(),
{
    if s.len() > 0 {
        lemma_seq_view_index(s.drop_last());
    }
}

pub proof fn lemma_entries_view_index(s: Seq<(String, Json)>)
    ensures
        entries_view(s).len() == s.len(),
        forall|i: int|
            0 <= i < s.len() ==> #[trigger] entries_view(s)[i] == (s[i].0@, json_view(s[i].1)),
    decreases s.len(),
{
    if s.len() > 0 {
        lemma_entries_view_index(s.drop_last());
    }
}

/// The position of the last member named `k`, or -1 where there is none.
pub open spec fn key_index(es: Seq<(Seq<char>, JsonModel)>, k: Seq<char>) -> int
    decreases es.len(),
{
    if es.len() == 0 {
        -1
    } else if es.last().0 == k {
        es.len() - 1
    } else {
        key_index(es.drop_last(), k)
    }
}

/// Sets member `k` to `v`: an existing member keeps its place, a new one is
/// appended.
pub open spec fn insert_entry(
    es: Seq<(Seq<char>, JsonModel)>,
    k: Seq<char>,
    v: JsonModel,
) -> Seq<(Seq<char>, JsonModel)> {
    let j = key_index(es, k);
    if j < 0 {
        es.push((k, v))
    } else {
        es.update(j, (k, v))
    }
}

/// A JSON tree with every object key in canonical form, at every depth.
pub open spec fn normalize_spec(j: JsonModel) -> JsonModel
    decreases j,
{
    match j {
        JsonModel::Array(a) => JsonModel::Array(normalize_seq(a)),
        JsonModel::Object(es) => JsonModel::Object(normalize_entries(es)),
        _ => j,
    }
}

/// Each element normalized, in the same order.
pub open spec fn normalize_seq(a: Seq<JsonModel>) -> Seq<JsonModel>
    decreases a,
{
    if a.len() == 0 {
        Seq::empty()
    } else {
        normalize_seq(a.drop_last()).push(normalize_spec(a.last()))
    }
}

/// The members inserted in order under their canonical keys, each value
/// normalized; where two keys meet, the later member's value wins.
pub open spec fn normalize_entries(es: Seq<(Seq<char>, JsonModel)>) -> Seq<(Seq<char>, JsonModel)>
    decreases es,
{
    if es.len() == 0 {
        Seq::empty()
    } else {
        insert_entry(
            normalize_entries(es.drop_last()),
            canonical_key(es.last().0),
            normalize_spec(es.last().1),
        )
    }
}

proof fn lemma_key_index_tail(s: Seq<(Seq<char>, JsonModel)>, k: Seq<char>, j: int)
    requires
        0 <= j <= s.len(),
        forall|t: int| j <= t < s.len() ==> (#[trigger] s[t]).0 != k,
    ensures
        key_index(s, k) == key_index(s.subrange(0, j), k),
    decreases s.len(),
{
    if s.len() > j {
        assert(s.drop_last().subrange(0, j) =~= s.subrange(0, j));
        lemma_key_index_tail(s.drop_last(), k, j);
    } else {
        assert(s.subrange(0, j) =~= s);
    }
}

/// Sets member `k` of `out` to `v`, as `insert_entry` describes.
fn insert_member(out: &mut Vec<(String, Json)>, k: String, v: Json)
    ensures
        entries_view(final(out)@) == insert_entry(entries_view(old(out)@), k@, v@),
{
    let ghost es = entries_view(out@);
    proof {
        lemma_entries_view_index(out@);
    }
    let mut j: usize = out.len();
    while j > 0
        invariant
            j <= out.len(),
            es == entries_view(out@),
            out@ == old(out)@,
            es.len() == out.len(),
            forall|t: int| j <= t < out.len() ==> (#[trigger] es[t]).0 != k@,
        decreases j,
    {
        if out[j - 1].0 == k {
            proof {
                lemma_key_index_tail(es, k@, j as int);
                lemma_entries_view_index(out@);
                assert(es[j - 1].0 == k@);
                assert(es.subrange(0, j as int).last() == es[j - 1]);
                assert(key_index(es, k@) == j - 1);
            }
            let ghost kv = k@;
            let ghost vv = v@;
            let ghost before = out@;
            out.set(j - 1, (k, v));
            proof {
                lemma_entries_view_index(before);
                lemma_entries_view_index(out@);
                assert forall|t: int| 0 <= t < out.len() implies entries_view(out@)[t] == es.update(
                    j - 1,
                    (kv, vv),
                )[t] by {
                    if t != j - 1 {
                        assert(out@[t] == before[t]);
                    }
                }
                assert(entries_view(out@) =~= es.update(j - 1, (kv, vv)));
            }
            return;
        }
        proof {
            lemma_entries_view_index(out@);
        }
        j -= 1;
    }
    proof {
        lemma_key_index_tail(es, k@, 0);
    }
    let ghost before = out@;
    out.push((k, v));
    proof {
        assert(out@.drop_last() =~= before);
    }
}

/// Rewrites every object key of `value` into its canonical form, at every
/// depth; arrays keep their length and order, other values pass through.
pub fn normalize(value: Json) -> (r: Json)
    ensures
        r@ == normalize_spec(value@),
    decreases value,
{
    match value {
        Json::Array(v) => {
            let ghost v0 = v@;
            let mut rest = v;
            let mut out: Vec<Json> = Vec::new();
            let ghost mut i: int = 0;
            while rest.len() > 0
                invariant
                    0 <= i <= v0.len(),
                    rest@ == v0.subrange(i, v0.len() as int),
                    value == Json::Array(v),
                    v@ == v0,
                    seq_view(out@) == normalize_seq(seq_view(v0.subrange(0, i))),
                decreases rest.len(),
            {
                let x = rest.remove(0);
                proof {
                    assert(x == v0[i]);
                    assert(decreases_to!(value => value->Array_0));
                    assert(decreases_to!(v => v[i]));
                }
                let y = normalize(x);
                let ghost before = out@;
                out.push(y);
                proof {
                    assert(out@.drop_last() =~= before);
                    let s0 = v0.subrange(0, i);
                    let s1 = v0.subrange(0, i + 1);
                    assert(s1.drop_last() =~= s0);
                    assert(seq_view(s1) == seq_view(s0).push(json_view(x)));
                    assert(seq_view(s1).drop_last() =~= seq_view(s0));
                    i = i + 1;
                }
                assert(rest@ =~= v0.subrange(i, v0.len() as int));
            }
            assert(v0.subrange(0, i) =~= v0);
            Json::Array(out)
        },
        Json::Object(v) => {
            let ghost v0 = v@;
            let mut rest = v;
            let mut out: Vec<(String, Json)> = Vec::new();
            let ghost mut i: int = 0;
            while rest.len() > 0
                invariant
                    0 <= i <= v0.len(),
                    rest@ == v0.subrange(i, v0.len() as int),
                    value == Json::Object(v),
                    v@ == v0,
                    entries_view(out@) == normalize_entries(entries_view(v0.subrange(0, i))),
                decreases rest.len(),
            {
                let (k, x) = rest.remove(0);
                proof {
                    assert((k, x) == v0[i]);
                    assert(decreases_to!(value => value->Object_0));
                    assert(decreases_to!(v => v[i]));
                    assert(decreases_to!(v[i] => v[i].1));
                }
                let y = normalize(x);
                let nk = process_key(k.as_str());
                insert_member(&mut out, nk, y);
                proof {
                    let s0 = v0.subrange(0, i);
                    let s1 = v0.subrange(0, i + 1);
                    assert(s1.drop_last() =~= s0);
                    assert(entries_view(s1) == entries_view(s0).push((k@, json_view(x))));
                    assert(entries_view(s1).drop_last() =~= entries_view(s0));
                    i = i + 1;
                }
                assert(rest@ =~= v0.subrange(i, v0.len() as int));
            }
            assert(v0.subrange(0, i) =~= v0);
            Json::Object(out)
        },
        other => other,
    }
}

/// Canonicalizing the key a second time changes nothing.
pub open spec fn key_stable(k: Seq<char>) -> bool {
    canonical_key(canonical_key(k)) == canonical_key(k)
}

/// Every object key in the tree, at any depth, is stable.
pub open spec fn keys_stable(j: JsonModel) -> bool
    decreases j,
{
    match j {
        JsonModel::Array(a) => keys_stable_seq(a),
        JsonModel::Object(es) => keys_stable_entries(es),
        _ => true,
    }
}

pub open spec fn keys_stable_seq(a: Seq<JsonModel>) -> bool
    decreases a,
{
    a.len() == 0 || (keys_stable_seq(a.drop_last()) && keys_stable(a.last()))
}

pub open spec fn keys_stable_entries(es: Seq<(Seq<char>, JsonModel)>) -> bool
    decreases es,
{
    es.len() == 0 || (keys_stable_entries(es.drop_last()) && key_stable(es.last().0)
        && keys_stable(es.last().1))
}

/// A tree already in normal form: canonical keys, each at most once per
/// object, at every depth.
pub open spec fn is_normal(j: JsonModel) -> bool
    decreases j,
{
    match j {
        JsonModel::Array(a) => normal_seq(a),
        JsonModel::Object(es) => normal_entries(es),
        _ => true,
    }
}

pub open spec fn normal_seq(a: Seq<JsonModel>) -> bool
    decreases a,
{
    a.len() == 0 || (normal_seq(a.drop_last()) && is_normal(a.last()))
}

pub open spec fn normal_entries(es: Seq<(Seq<char>, JsonModel)>) -> bool
    decreases es,
{
    es.len() == 0 || (normal_entries(es.drop_last()) && canonical_key(es.last().0) == es.last().0
        && is_normal(es.last().1) && key_index(es.drop_last(), es.last().0) < 0)
}

proof fn lemma_normal_fixed(j: JsonModel)
    requires
        is_normal(j),
    ensures
        normalize_spec(j) == j,
    decreases j,
{
    match j {
        JsonModel::Array(a) => lemma_normal_fixed_seq(a),
        JsonModel::Object(es) => lemma_normal_fixed_entries(es),
        _ => {},
    }
}

proof fn lemma_normal_fixed_seq(a: Seq<JsonModel>)
    requires
        normal_seq(a),
    ensures
        normalize_seq(a) == a,
    decreases a,
{
    if a.len() > 0 {
        lemma_normal_fixed_seq(a.drop_last());
        lemma_normal_fixed(a.last());
        assert(a.drop_last().push(a.last()) =~= a);
    }
}

proof fn lemma_normal_fixed_entries(es: Seq<(Seq<char>, JsonModel)>)
    requires
        normal_entries(es),
    ensures
        normalize_entries(es) == es,
    decreases es,
{
    if es.len() > 0 {
        lemma_normal_fixed_entries(es.drop_last());
        lemma_normal_fixed(es.last().1);
        assert(es.drop_last().push((es.last().0, es.last().1)) =~= es);
    }
}

proof fn lemma_key_index_found(s: Seq<(Seq<char>, JsonModel)>, k: Seq<char>)
    ensures
        -1 <= key_index(s, k) < s.len(),
        key_index(s, k) >= 0 ==> s[key_index(s, k)].0 == k,
    decreases s.len(),
{
    if s.len() > 0 {
        lemma_key_index_found(s.drop_last(), k);
    }
}

/// Replacing a value keeps every key where it was.
proof fn lemma_key_index_update_value(
    s: Seq<(Seq<char>, JsonModel)>,
    j: int,
    v: JsonModel,
    q: Seq<char>,
)
    requires
        0 <= j < s.len(),
    ensures
        key_index(s.update(j, (s[j].0, v)), q) == key_index(s, q),
    decreases s.len(),
{
    let t = s.update(j, (s[j].0, v));
    if j < s.len() - 1 {
        assert(t.drop_last() =~= s.drop_last().update(j, (s[j].0, v)));
        lemma_key_index_update_value(s.drop_last(), j, v, q);
    } else {
        assert(t.drop_last() =~= s.drop_last());
    }
}

proof fn lemma_insert_keeps_normal(es: Seq<(Seq<char>, JsonModel)>, k: Seq<char>, v: JsonModel)
    requires
        normal_entries(es),
        canonical_key(k) == k,
        is_normal(v),
    ensures
        normal_entries(insert_entry(es, k, v)),
    decreases es.len(),
{
    let j = key_index(es, k);
    lemma_key_index_found(es, k);
    if j < 0 {
        assert(es.push((k, v)).drop_last() =~= es);
    } else {
        let t = es.update(j, (k, v));
        if j == es.len() - 1 {
            assert(t.drop_last() =~= es.drop_last());
        } else {
            let p = es.drop_last();
            assert(key_index(p, k) == j);
            assert(t.drop_last() =~= p.update(j, (k, v)));
            lemma_insert_keeps_normal(p, k, v);
            lemma_key_index_found(p, k);
            lemma_key_index_update_value(p, j, v, es.last().0);
        }
    }
}

proof fn lemma_normalize_normal(j: JsonModel)
    requires
        keys_stable(j),
    ensures
        is_normal(normalize_spec(j)),
    decreases j,
{
    match j {
        JsonModel::Array(a) => lemma_normalize_normal_seq(a),
        JsonModel::Object(es) => lemma_normalize_normal_entries(es),
        _ => {},
    }
}

proof fn lemma_normalize_normal_seq(a: Seq<JsonModel>)
    requires
        keys_stable_seq(a),
    ensures
        normal_seq(normalize_seq(a)),
    decreases a,
{
    if a.len() > 0 {
        lemma_normalize_normal_seq(a.drop_last());
        lemma_normalize_normal(a.last());
        let n = normalize_seq(a);
        assert(n.drop_last() =~= normalize_seq(a.drop_last()));
    }
}

proof fn lemma_normalize_normal_entries(es: Seq<(Seq<char>, JsonModel)>)
    requires
        keys_stable_entries(es),
    ensures
        normal_entries(normalize_entries(es)),
    decreases es,
{
    if es.len() > 0 {
        lemma_normalize_normal_entries(es.drop_last());
        lemma_normalize_normal(es.last().1);
        lemma_insert_keeps_normal(
            normalize_entries(es.drop_last()),
            canonical_key(es.last().0),
            normalize_spec(es.last().1),
        );
    }
}

/// Normalizing twice gives what normalizing once gives, for every tree whose
/// keys each reach a fixed point after one canonicalization. A key such as
/// `ßn` does not: it becomes `SSn`, which then becomes `SSN`.
pub proof fn lemma_normalize_idempotent(j: JsonModel)
    requires
        keys_stable(j),
    ensures
        normalize_spec(normalize_spec(j)) == normalize_spec(j),
{
    lemma_normalize_normal(j);
    lemma_normal_fixed(normalize_spec(j));
}

/// Normalizing an array keeps its length and its order: element `i` of the
/// result is element `i` of the input, normalized.
pub proof fn lemma_normalize_array(a: Seq<JsonModel>)
    ensures
        normalize_spec(JsonModel::Array(a)) is Array,
        normalize_spec(JsonModel::Array(a))->Array_0.len() == a.len(),
        forall|i: int|
            0 <= i < a.len() ==> #[trigger] normalize_spec(JsonModel::Array(a))->Array_0[i]
                == normalize_spec(a[i]),
    decreases a.len(),
{
    if a.len() > 0 {
        lemma_normalize_array(a.drop_last());
    }
}

} // verus!
