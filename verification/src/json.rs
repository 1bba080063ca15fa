//! The library's JSON document model.
//!
//! Fragment files carry JSON; the merge engine works on this model, whose
//! objects are insertion-ordered lists of key/value pairs: inserting under an
//! existing key replaces the value in place, inserting under a new key
//! appends. Parsing a text into the model and rendering a document back out
//! are the only steps done by an outside crate, each behind one trusted
//! wrapper at the bottom of this file.

use vstd::prelude::*;
use crate::text::str_eq;

verus! {

/// A JSON value. Objects keep their keys in insertion order; a number is
/// carried as its literal text.
#[derive(Debug)]
pub enum Json {
    Null,
    Bool(bool),
    Num(String),
    Str(String),
    Arr(Vec<Json>),
    Obj(Vec<(String, Json)>),
}

/// The mathematical model of a JSON value.
#[verifier::ext_equal]
pub enum JsonV {
    Null,
    Bool(bool),
    Num(Seq<char>),
    Str(Seq<char>),
    Arr(Seq<JsonV>),
    Obj(Seq<(Seq<char>, JsonV)>),
}

/// The model of a value, by structural recursion.
pub open spec fn jv_of(j: Json) -> JsonV
    decreases j,
{
    match j {
        Json::Null => JsonV::Null,
        Json::Bool(b) => JsonV::Bool(b),
        Json::Num(s) => JsonV::Num(s@),
        Json::Str(s) => JsonV::Str(s@),
        Json::Arr(v) => JsonV::Arr(jv_list(v@)),
        Json::Obj(v) => JsonV::Obj(jv_entries(v@)),
    }
}

/// The models of a list of values, element by element.
pub open spec fn jv_list(v: Seq<Json>) -> Seq<JsonV>
    decreases v,
{
    if v.len() == 0 {
        Seq::empty()
    } else {
        seq![jv_of(v[0])] + jv_list(v.drop_first())
    }
}

/// The models of a list of object entries, entry by entry.
pub open spec fn jv_entries(v: Seq<(String, Json)>) -> Seq<(Seq<char>, JsonV)>
    decreases v,
{
    if v.len() == 0 {
        Seq::empty()
    } else {
        seq![(v[0].0@, jv_of(v[0].1))] + jv_entries(v.drop_first())
    }
}

impl View for Json {
    type V = JsonV;

    open spec fn view(&self) -> JsonV {
        jv_of(*self)
    }
}

/// The model of a list of object entries.
pub open spec fn entries_view(v: Seq<(String, Json)>) -> Seq<(Seq<char>, JsonV)> {
    Seq::new(v.len(), |i: int| (v[i].0@, v[i].1@))
}

/// The model of a list of values.
pub open spec fn values_view(v: Seq<Json>) -> Seq<JsonV> {
    Seq::new(v.len(), |i: int| v[i]@)
}

/// The entry-by-entry model is the indexed model.
pub proof fn lemma_jv_entries(v: Seq<(String, Json)>)
    ensures
        jv_entries(v) == entries_view(v),
    decreases v.len(),
{
    if v.len() == 0 {
        assert(jv_entries(v) =~= entries_view(v));
    } else {
        lemma_jv_entries(v.drop_first());
        assert(jv_entries(v) =~= entries_view(v)) by {
            assert(forall|i: int|
                0 <= i < v.drop_first().len() ==> #[trigger] entries_view(v.drop_first())[i]
                    == entries_view(v)[i + 1]);
        }
    }
}

/// The element-by-element model is the indexed model.
pub proof fn lemma_jv_list(v: Seq<Json>)
    ensures
        jv_list(v) == values_view(v),
    decreases v.len(),
{
    if v.len() == 0 {
        assert(jv_list(v) =~= values_view(v));
    } else {
        lemma_jv_list(v.drop_first());
        assert(jv_list(v) =~= values_view(v)) by {
            assert(forall|i: int|
                0 <= i < v.drop_first().len() ==> #[trigger] values_view(v.drop_first())[i]
                    == values_view(v)[i + 1]);
        }
    }
}

/// Well-formedness of a value: every object, at every depth, has distinct
/// keys.
pub open spec fn jv_wf(v: JsonV) -> bool
    decreases v,
{
    match v {
        JsonV::Arr(a) => forall|i: int| 0 <= i < a.len() ==> jv_wf(#[trigger] a[i]),
        JsonV::Obj(m) => {
            &&& forall|i: int, j: int| 0 <= i < j < m.len() ==> (#[trigger] m[i].0) != (
            #[trigger] m[j].0)
            &&& forall|i: int| 0 <= i < m.len() ==> jv_wf(#[trigger] m[i].1)
        },
        _ => true,
    }
}

/// Distinct keys at the top level of an entry list.
pub open spec fn keys_distinct(m: Seq<(Seq<char>, JsonV)>) -> bool {
    forall|i: int, j: int| 0 <= i < j < m.len() ==> (#[trigger] m[i].0) != (#[trigger] m[j].0)
}

/// The entry list has an entry under the key.
pub open spec fn obj_has_key(m: Seq<(Seq<char>, JsonV)>, k: Seq<char>) -> bool {
    exists|i: int| 0 <= i < m.len() && (#[trigger] m[i].0) == k
}

/// Index of the first entry under the key; the length when there is none.
pub open spec fn obj_key_index(m: Seq<(Seq<char>, JsonV)>, k: Seq<char>) -> int
    decreases m.len(),
{
    if m.len() == 0 {
        0
    } else if m[0].0 == k {
        0
    } else {
        1 + obj_key_index(m.drop_first(), k)
    }
}

/// The value under the key: the first entry's value, or `None`.
pub open spec fn obj_get_spec(m: Seq<(Seq<char>, JsonV)>, k: Seq<char>) -> Option<JsonV> {
    if obj_has_key(m, k) {
        Some(m[obj_key_index(m, k)].1)
    } else {
        None
    }
}

/// Insertion into an entry list: an existing key's value is replaced in
/// place, a new key is appended at the end.
pub open spec fn obj_put_spec(m: Seq<(Seq<char>, JsonV)>, k: Seq<char>, v: JsonV) -> Seq<
    (Seq<char>, JsonV),
> {
    if obj_has_key(m, k) {
        m.update(obj_key_index(m, k), (k, v))
    } else {
        m.push((k, v))
    }
}

/// Merging a second entry list into a first, entry by entry in order: the
/// later list's values win on shared keys.
pub open spec fn obj_extend_spec(d: Seq<(Seq<char>, JsonV)>, s: Seq<(Seq<char>, JsonV)>) -> Seq<
    (Seq<char>, JsonV),
>
    decreases s.len(),
{
    if s.len() == 0 {
        d
    } else {
        obj_extend_spec(obj_put_spec(d, s[0].0, s[0].1), s.drop_first())
    }
}

/// The keys of an entry list, in order.
pub open spec fn obj_keys(m: Seq<(Seq<char>, JsonV)>) -> Seq<Seq<char>> {
    m.map_values(|p: (Seq<char>, JsonV)| p.0)
}

/// The first index under a key is an index of that key, and no entry before
/// it carries the key.
pub proof fn lemma_obj_key_index(m: Seq<(Seq<char>, JsonV)>, k: Seq<char>)
    requires
        obj_has_key(m, k),
    ensures
        0 <= obj_key_index(m, k) < m.len(),
        m[obj_key_index(m, k)].0 == k,
        forall|j: int| 0 <= j < obj_key_index(m, k) ==> m[j].0 != k,
    decreases m.len(),
{
    if m.len() > 0 {
        if m[0].0 == k {
        } else {
            assert(obj_has_key(m.drop_first(), k)) by {
                let i = choose|i: int| 0 <= i < m.len() && m[i].0 == k;
                assert(m.drop_first()[i - 1].0 == k);
            }
            lemma_obj_key_index(m.drop_first(), k);
            assert forall|j: int| 0 <= j < obj_key_index(m, k) implies m[j].0 != k by {
                if j > 0 {
                    assert(m.drop_first()[j - 1].0 != k);
                }
            }
        }
    }
}

/// Finds the first entry under the key.
pub fn obj_get<'a>(m: &'a Vec<(String, Json)>, k: &str) -> (r: Option<&'a Json>)
    ensures
        match r {
            Some(v) => obj_get_spec(entries_view(m@), k@) == Some(v@),
            None => obj_get_spec(entries_view(m@), k@) is None,
        },
{
    let ghost mv = entries_view(m@);
    let mut i: usize = 0;
    while i < m.len()
        invariant
            mv == entries_view(m@),
            i <= m@.len(),
            forall|j: int| 0 <= j < i ==> mv[j].0 != k@,
        decreases m@.len() - i,
    {
        if str_eq(m[i].0.as_str(), k) {
            proof {
                assert(mv[i as int].0 == k@);
                lemma_obj_key_index(mv, k@);
                assert(obj_key_index(mv, k@) == i as int) by {
                    if obj_key_index(mv, k@) < i as int {
                        assert(mv[obj_key_index(mv, k@)].0 != k@);
                    }
                }
            }
            return Some(&m[i].1);
        }
        i = i + 1;
    }
    proof {
        if obj_has_key(mv, k@) {
            let j = choose|j: int| 0 <= j < mv.len() && mv[j].0 == k@;
            assert(mv[j].0 != k@);
        }
    }
    None
}

/// Inserts under a key, as the insertion spec describes.
pub fn obj_put(m: &mut Vec<(String, Json)>, k: String, v: Json)
    ensures
        entries_view(final(m)@) == obj_put_spec(entries_view(old(m)@), k@, v@),
{
    let ghost mv = entries_view(old(m)@);
    let mut i: usize = 0;
    while i < m.len()
        invariant
            m@ == old(m)@,
            mv == entries_view(m@),
            i <= m@.len(),
            forall|j: int| 0 <= j < i ==> mv[j].0 != k@,
        decreases m@.len() - i,
    {
        if str_eq(m[i].0.as_str(), k.as_str()) {
            proof {
                assert(mv[i as int].0 == k@);
                lemma_obj_key_index(mv, k@);
                assert(obj_key_index(mv, k@) == i as int) by {
                    if obj_key_index(mv, k@) < i as int {
                        assert(mv[obj_key_index(mv, k@)].0 != k@);
                    }
                }
            }
            let ghost pair_v = (k@, v@);
            m.remove(i);
            m.insert(i, (k, v));
            proof {
                assert(entries_view(m@) =~= mv.update(i as int, pair_v));
            }
            return ;
        }
        i = i + 1;
    }
    proof {
        if obj_has_key(mv, k@) {
            let j = choose|j: int| 0 <= j < mv.len() && mv[j].0 == k@;
            assert(mv[j].0 != k@);
        }
    }
    let ghost pair_v = (k@, v@);
    m.push((k, v));
    proof {
        assert(entries_view(m@) =~= mv.push(pair_v));
    }
}

/// Merges the entries of `src` into `dest` in order, as the merge spec
/// describes; `src` is consumed.
pub fn obj_extend(dest: &mut Vec<(String, Json)>, src: Vec<(String, Json)>)
    ensures
        entries_view(final(dest)@) == obj_extend_spec(entries_view(old(dest)@), entries_view(src@)),
{
    let ghost sv = entries_view(src@);
    let mut src = src;
    let ghost dv0 = entries_view(old(dest)@);
    let ghost mut taken: int = 0;
    while src.len() > 0
        invariant
            0 <= taken,
            taken + src@.len() == sv.len(),
            entries_view(src@) =~= sv.skip(taken as int),
            obj_extend_spec(entries_view(dest@), entries_view(src@)) == obj_extend_spec(dv0, sv),
        decreases src@.len(),
    {
        let ghost dvc = entries_view(dest@);
        let (k, v) = src.remove(0);
        proof {
            assert(entries_view(src@) =~= sv.skip(taken as int).drop_first());
            assert(sv.skip(taken as int)[0] == (k@, v@));
        }
        obj_put(dest, k, v);
        proof {
            assert(sv.skip(taken as int).drop_first() =~= sv.skip(taken as int + 1));
            assert(entries_view(dest@) == obj_put_spec(dvc, k@, v@));
        }
        proof {
            taken = taken + 1;
        }
    }
    proof {
        assert(entries_view(src@) =~= Seq::<(Seq<char>, JsonV)>::empty());
        assert(obj_extend_spec(entries_view(dest@), entries_view(src@)) == entries_view(dest@));
    }
}

/// Copies out the keys of an entry list, in order.
pub fn obj_key_list(m: &Vec<(String, Json)>) -> (r: Vec<String>)
    ensures
        r.deep_view() == obj_keys(entries_view(m@)),
{
    let mut out: Vec<String> = Vec::new();
    let mut i: usize = 0;
    while i < m.len()
        invariant
            i <= m@.len(),
            out.deep_view() =~= obj_keys(entries_view(m@)).subrange(0, i as int),
        decreases m@.len() - i,
    {
        let ghost prev = out.deep_view();
        out.push(m[i].0.clone());
        proof {
            assert(out.deep_view() =~= prev.push(m@[i as int].0@));
        }
        i = i + 1;
    }
    proof {
        assert(obj_keys(entries_view(m@)).subrange(0, m@.len() as int) =~= obj_keys(
            entries_view(m@),
        ));
    }
    out
}

/// Builds the one-entry document `{ <key>: <value> }`.
pub fn singleton_obj(key: &str, value: Json) -> (r: Json)
    ensures
        r@ == JsonV::Obj(seq![(key@, value@)]),
{
    let ghost vv = value@;
    let mut entries: Vec<(String, Json)> = Vec::new();
    entries.push((key.to_owned(), value));
    proof {
        assert(entries@.drop_first() =~= Seq::<(String, Json)>::empty());
        assert(jv_entries(entries@.drop_first()) =~= Seq::<(Seq<char>, JsonV)>::empty());
        assert(jv_entries(entries@) =~= seq![(key@, vv)]);
    }
    Json::Obj(entries)
}

/// Inserting under a key makes that key's value the inserted one.
pub proof fn lemma_put_get_same(m: Seq<(Seq<char>, JsonV)>, k: Seq<char>, v: JsonV)
    ensures
        obj_get_spec(obj_put_spec(m, k, v), k) == Some(v),
{
    let m2 = obj_put_spec(m, k, v);
    if obj_has_key(m, k) {
        lemma_obj_key_index(m, k);
        let i = obj_key_index(m, k);
        assert(m2[i].0 == k);
        assert(obj_has_key(m2, k));
        lemma_obj_key_index(m2, k);
        let i2 = obj_key_index(m2, k);
        if i2 < i {
            assert(m[i2].0 == m2[i2].0);
        }
        if i < i2 {
            assert(m2[i].0 != k);
        }
    } else {
        assert(m2[m.len() as int].0 == k);
        assert(obj_has_key(m2, k));
        lemma_obj_key_index(m2, k);
        let i2 = obj_key_index(m2, k);
        if i2 < m.len() {
            assert(m[i2].0 == m2[i2].0);
            assert(obj_has_key(m, k));
        }
    }
}

/// Inserting under one key leaves every other key's value unchanged.
pub proof fn lemma_put_get_other(m: Seq<(Seq<char>, JsonV)>, k: Seq<char>, v: JsonV, k2: Seq<char>)
    requires
        k2 != k,
    ensures
        obj_get_spec(obj_put_spec(m, k, v), k2) == obj_get_spec(m, k2),
{
    let m2 = obj_put_spec(m, k, v);
    if obj_has_key(m, k) {
        lemma_obj_key_index(m, k);
        let i = obj_key_index(m, k);
        assert(forall|j: int| 0 <= j < m.len() && j != i ==> m2[j] == m[j]);
        if obj_has_key(m, k2) {
            lemma_obj_key_index(m, k2);
            let j = obj_key_index(m, k2);
            assert(j != i);
            assert(m2[j].0 == k2);
            assert(obj_has_key(m2, k2));
            lemma_obj_key_index(m2, k2);
            let j2 = obj_key_index(m2, k2);
            assert(j2 != i);
            assert(m[j2] == m2[j2]);
            if j2 < j {
                assert(m[j2].0 != k2);
            }
            if j < j2 {
                assert(m2[j].0 != k2);
            }
        } else {
            if obj_has_key(m2, k2) {
                let j2 = choose|j2: int| 0 <= j2 < m2.len() && m2[j2].0 == k2;
                assert(j2 != i);
                assert(m[j2].0 == k2);
            }
        }
    } else {
        assert(forall|j: int| 0 <= j < m.len() ==> m2[j] == m[j]);
        if obj_has_key(m, k2) {
            lemma_obj_key_index(m, k2);
            let j = obj_key_index(m, k2);
            assert(m2[j].0 == k2);
            assert(obj_has_key(m2, k2));
            lemma_obj_key_index(m2, k2);
            let j2 = obj_key_index(m2, k2);
            assert(j2 < m.len());
            if j2 < j {
                assert(m[j2].0 != k2);
            }
            if j < j2 {
                assert(m2[j].0 != k2);
            }
        } else {
            if obj_has_key(m2, k2) {
                let j2 = choose|j2: int| 0 <= j2 < m2.len() && m2[j2].0 == k2;
                assert(j2 < m.len());
                assert(m[j2].0 == k2);
            }
        }
    }
}

proof fn lemma_get_drop_first(s: Seq<(Seq<char>, JsonV)>, k: Seq<char>)
    requires
        s.len() > 0,
        s[0].0 != k,
    ensures
        obj_get_spec(s, k) == obj_get_spec(s.drop_first(), k),
{
    let d = s.drop_first();
    if obj_has_key(s, k) {
        let i = choose|i: int| 0 <= i < s.len() && s[i].0 == k;
        assert(d[i - 1].0 == k);
        assert(obj_has_key(d, k));
        lemma_obj_key_index(s, k);
        lemma_obj_key_index(d, k);
        let i1 = obj_key_index(s, k);
        let i2 = obj_key_index(d, k);
        assert(i1 >= 1);
        assert(d[i1 - 1].0 == k);
        if i2 < i1 - 1 {
            assert(s[i2 + 1].0 == d[i2].0);
        }
        if i1 - 1 < i2 {
            assert(d[i1 - 1].0 != k);
        }
        assert(s[i1].1 == d[i2].1);
    } else {
        if obj_has_key(d, k) {
            let i = choose|i: int| 0 <= i < d.len() && d[i].0 == k;
            assert(s[i + 1].0 == k);
        }
    }
}

/// Merging entries with distinct keys: a key in the merged-in list comes out
/// with that list's value, any other key keeps the base value.
pub proof fn lemma_extend_get(
    d: Seq<(Seq<char>, JsonV)>,
    s: Seq<(Seq<char>, JsonV)>,
    k: Seq<char>,
)
    requires
        keys_distinct(s),
    ensures
        obj_get_spec(obj_extend_spec(d, s), k) == if obj_has_key(s, k) {
            obj_get_spec(s, k)
        } else {
            obj_get_spec(d, k)
        },
    decreases s.len(),
{
    if s.len() > 0 {
        let d2 = obj_put_spec(d, s[0].0, s[0].1);
        let rest = s.drop_first();
        assert(keys_distinct(rest)) by {
            assert(forall|i: int, j: int|
                0 <= i < j < rest.len() ==> rest[i].0 == s[i + 1].0 && rest[j].0 == s[j + 1].0);
        }
        lemma_extend_get(d2, rest, k);
        if s[0].0 == k {
            assert(!obj_has_key(rest, k)) by {
                if obj_has_key(rest, k) {
                    let i = choose|i: int| 0 <= i < rest.len() && rest[i].0 == k;
                    assert(s[i + 1].0 == s[0].0);
                }
            }
            lemma_put_get_same(d, k, s[0].1);
            assert(obj_has_key(s, k));
            lemma_obj_key_index(s, k);
            assert(obj_key_index(s, k) == 0);
        } else {
            lemma_put_get_other(d, s[0].0, s[0].1, k);
            assert(obj_has_key(s, k) == obj_has_key(rest, k)) by {
                if obj_has_key(s, k) {
                    let i = choose|i: int| 0 <= i < s.len() && s[i].0 == k;
                    assert(i >= 1);
                    assert(rest[i - 1].0 == k);
                }
                if obj_has_key(rest, k) {
                    let i = choose|i: int| 0 <= i < rest.len() && rest[i].0 == k;
                    assert(s[i + 1].0 == k);
                }
            }
            if obj_has_key(s, k) {
                lemma_get_drop_first(s, k);
            }
        }
    }
}

/// Merging keeps the base entries' keys and appends the new keys in order:
/// merged keys are base keys followed by the merged-in keys not already
/// present.
pub proof fn lemma_extend_has_key(
    d: Seq<(Seq<char>, JsonV)>,
    s: Seq<(Seq<char>, JsonV)>,
    k: Seq<char>,
)
    ensures
        obj_has_key(obj_extend_spec(d, s), k) == (obj_has_key(d, k) || obj_has_key(s, k)),
    decreases s.len(),
{
    if s.len() > 0 {
        let d2 = obj_put_spec(d, s[0].0, s[0].1);
        let rest = s.drop_first();
        lemma_extend_has_key(d2, rest, k);
        assert(obj_has_key(d2, k) == (obj_has_key(d, k) || s[0].0 == k)) by {
            let k0 = s[0].0;
            if obj_has_key(d, k0) {
                lemma_obj_key_index(d, k0);
                let i0 = obj_key_index(d, k0);
                assert(forall|j: int| 0 <= j < d.len() ==> (#[trigger] d2[j]).0 == d[j].0);
                if obj_has_key(d, k) {
                    let i = choose|i: int| 0 <= i < d.len() && d[i].0 == k;
                    assert(d2[i].0 == k);
                }
                if k0 == k {
                    assert(d2[i0].0 == k);
                }
                if obj_has_key(d2, k) {
                    let i = choose|i: int| 0 <= i < d2.len() && d2[i].0 == k;
                    assert(d[i].0 == k);
                }
            } else {
                if obj_has_key(d, k) {
                    let i = choose|i: int| 0 <= i < d.len() && d[i].0 == k;
                    assert(d2[i].0 == k);
                }
                if k0 == k {
                    assert(d2[d.len() as int].0 == k);
                }
                if obj_has_key(d2, k) && k0 != k {
                    let i = choose|i: int| 0 <= i < d2.len() && d2[i].0 == k;
                    if i < d.len() {
                        assert(d[i].0 == k);
                    } else {
                        assert(d2[i].0 == k0);
                    }
                }
            }
        }
        assert((obj_has_key(d, k) || obj_has_key(s, k)) == (obj_has_key(d, k) || s[0].0 == k
            || obj_has_key(rest, k))) by {
            if obj_has_key(s, k) && s[0].0 != k {
                let i = choose|i: int| 0 <= i < s.len() && s[i].0 == k;
                assert(rest[i - 1].0 == k);
            }
            if obj_has_key(rest, k) {
                let i = choose|i: int| 0 <= i < rest.len() && rest[i].0 == k;
                assert(s[i + 1].0 == k);
            }
        }
    }
}

/// Override precedence across three merge stages: after merging a first
/// source and then a second into a base, a key found in the second source
/// comes out with the second source's value; failing that, a key found in
/// the first source comes out with the first's; only a key in neither
/// keeps the base value. With the base holding the default entries, the
/// first source a requested language's, and the second an explicitly
/// named one, this is the whole override order.
pub proof fn lemma_override_precedence(
    d: Seq<(Seq<char>, JsonV)>,
    s1: Seq<(Seq<char>, JsonV)>,
    s2: Seq<(Seq<char>, JsonV)>,
    k: Seq<char>,
)
    requires
        keys_distinct(s1),
        keys_distinct(s2),
    ensures
        obj_get_spec(obj_extend_spec(obj_extend_spec(d, s1), s2), k) == if obj_has_key(s2, k) {
            obj_get_spec(s2, k)
        } else if obj_has_key(s1, k) {
            obj_get_spec(s1, k)
        } else {
            obj_get_spec(d, k)
        },
{
    lemma_extend_get(d, s1, k);
    lemma_extend_get(obj_extend_spec(d, s1), s2, k);
}

#[verifier::external_type_specification]
#[verifier::external_body]
pub struct ExValue(serde_json::Value);

/// Carries a serde_json value over into the library's model, variant by
/// variant; a number becomes its literal text.
#[verifier::external_body]
fn value_to_json(v: serde_json::Value) -> Json {
    match v {
        serde_json::Value::Null => Json::Null,
        serde_json::Value::Bool(b) => Json::Bool(b),
        serde_json::Value::Number(n) => Json::Num(n.to_string()),
        serde_json::Value::String(s) => Json::Str(s),
        serde_json::Value::Array(a) => Json::Arr(a.into_iter().map(value_to_json).collect()),
        serde_json::Value::Object(m) => Json::Obj(
            m.into_iter().map(|(k, x)| (k, value_to_json(x))).collect(),
        ),
    }
}

/// Carries a value of the library's model over into a serde_json value,
/// variant by variant; a number literal that serde_json rejects becomes
/// null.
#[verifier::external_body]
fn json_to_value(j: Json) -> serde_json::Value {
    match j {
        Json::Null => serde_json::Value::Null,
        Json::Bool(b) => serde_json::Value::Bool(b),
        Json::Num(s) => match serde_json::from_str::<serde_json::Number>(&s) {
            Ok(n) => serde_json::Value::Number(n),
            Err(_) => serde_json::Value::Null,
        },
        Json::Str(s) => serde_json::Value::String(s),
        Json::Arr(a) => serde_json::Value::Array(a.into_iter().map(json_to_value).collect()),
        Json::Obj(m) => serde_json::Value::Object(
            m.into_iter().map(|(k, x)| (k, json_to_value(x))).collect(),
        ),
    }
}

/// The document a text parses to, or `None` when the text is not JSON.
pub uninterp spec fn parsed_json(s: Seq<char>) -> Option<JsonV>;

/// Relies on serde_json::from_str::<serde_json::Value>: the result is a
/// function of the text alone, it keeps objects in their written key order,
/// and every parsed object has distinct keys (a repeated key keeps the last
/// value).
#[verifier::external_body]
pub(crate) fn parse_json(s: &str) -> (r: Option<Json>)
    ensures
        match r {
            Some(j) => parsed_json(s@) == Some(j@) && jv_wf(j@),
            None => parsed_json(s@) is None,
        },
{
    match serde_json::from_str::<serde_json::Value>(s) {
        Ok(v) => Some(value_to_json(v)),
        Err(_) => None,
    }
}

/// The pretty-printed text of a document.
pub uninterp spec fn pretty_json(v: JsonV) -> Seq<char>;

/// Renders a document as pretty-printed JSON text — the form in which the
/// generated files are written. The text is a function of the document
/// alone, so equal documents give byte-identical text.
pub fn pretty_text(doc: Json) -> (r: String)
    ensures
        r@ == pretty_json(doc@),
{
    json_pretty(doc)
}

/// Relies on serde_json::to_string_pretty: the rendered text is a function
/// of the document alone, with objects written in entry order.
#[verifier::external_body]
pub(crate) fn json_pretty(j: Json) -> (r: String)
    ensures
        r@ == pretty_json(j@),
{
    match serde_json::to_string_pretty(&json_to_value(j)) {
        Ok(s) => s,
        Err(_) => String::new(),
    }
}

} // verus!

