//! Merging of hook definitions.
//!
//! A hook file maps event-type names to arrays of entries. Merging is
//! additive: every contributing file's entries are appended onto the
//! accumulator's array for that event type, in file-processing order — a
//! later source never overwrites an earlier one's entries.

use vstd::prelude::*;
use crate::errors::Error;
use crate::json::entries_view;
use crate::json::values_view;
use crate::json::Json;
use crate::json::JsonV;
use crate::text::str_eq;

verus! {

/// The model of an accumulated hook map: event type to entry list.
pub open spec fn hooks_view(v: Seq<(String, Vec<Json>)>) -> Seq<(Seq<char>, Seq<JsonV>)> {
    Seq::new(v.len(), |i: int| (v[i].0@, values_view(v[i].1@)))
}

/// The hook map has an array under the event type.
pub open spec fn hook_has(m: Seq<(Seq<char>, Seq<JsonV>)>, k: Seq<char>) -> bool {
    exists|i: int| 0 <= i < m.len() && (#[trigger] m[i].0) == k
}

/// Index of the first array under the event type; the length when there is
/// none.
pub open spec fn hook_index(m: Seq<(Seq<char>, Seq<JsonV>)>, k: Seq<char>) -> int
    decreases m.len(),
{
    if m.len() == 0 {
        0
    } else if m[0].0 == k {
        0
    } else {
        1 + hook_index(m.drop_first(), k)
    }
}

/// The entry list under an event type, if any.
pub open spec fn hook_get_spec(m: Seq<(Seq<char>, Seq<JsonV>)>, k: Seq<char>) -> Option<
    Seq<JsonV>,
> {
    if hook_has(m, k) {
        Some(m[hook_index(m, k)].1)
    } else {
        None
    }
}

/// Appending entries under an event type: an existing array grows at its
/// end, a new event type is appended with exactly these entries.
pub open spec fn hook_append_spec(
    m: Seq<(Seq<char>, Seq<JsonV>)>,
    k: Seq<char>,
    items: Seq<JsonV>,
) -> Seq<(Seq<char>, Seq<JsonV>)> {
    if hook_has(m, k) {
        m.update(hook_index(m, k), (k, m[hook_index(m, k)].1 + items))
    } else {
        m.push((k, items))
    }
}

/// Merging one parsed hook file into the accumulator: each of its entries
/// must map an event type to an array, whose elements are appended; the
/// first event type bound to a non-array fails the merge.
pub open spec fn merge_hook_entries_spec(
    m: Seq<(Seq<char>, Seq<JsonV>)>,
    src: Seq<(Seq<char>, JsonV)>,
) -> Result<Seq<(Seq<char>, Seq<JsonV>)>, Seq<char>>
    decreases src.len(),
{
    if src.len() == 0 {
        Ok(m)
    } else {
        match src[0].1 {
            JsonV::Arr(items) => merge_hook_entries_spec(
                hook_append_spec(m, src[0].0, items),
                src.drop_first(),
            ),
            _ => Err(src[0].0),
        }
    }
}

/// The first index under an event type is an index of it, and no entry
/// before it carries it.
pub proof fn lemma_hook_index(m: Seq<(Seq<char>, Seq<JsonV>)>, k: Seq<char>)
    requires
        hook_has(m, k),
    ensures
        0 <= hook_index(m, k) < m.len(),
        m[hook_index(m, k)].0 == k,
        forall|j: int| 0 <= j < hook_index(m, k) ==> m[j].0 != k,
    decreases m.len(),
{
    if m.len() > 0 {
        if m[0].0 == k {
        } else {
            assert(hook_has(m.drop_first(), k)) by {
                let i = choose|i: int| 0 <= i < m.len() && m[i].0 == k;
                assert(m.drop_first()[i - 1].0 == k);
            }
            lemma_hook_index(m.drop_first(), k);
            assert forall|j: int| 0 <= j < hook_index(m, k) implies m[j].0 != k by {
                if j > 0 {
                    assert(m.drop_first()[j - 1].0 != k);
                }
            }
        }
    }
}

/// Appends entries under an event type, as the append spec describes; the
/// entries are consumed.
#[verifier::loop_isolation(false)]
pub fn hook_append(m: &mut Vec<(String, Vec<Json>)>, k: String, items: Vec<Json>)
    ensures
        hooks_view(final(m)@) == hook_append_spec(hooks_view(old(m)@), k@, values_view(items@)),
{
    let ghost mv = hooks_view(old(m)@);
    let ghost items_v = values_view(items@);
    let mut i: usize = 0;
    while i < m.len()
        invariant
            m@ == old(m)@,
            i <= m@.len(),
            forall|j: int| 0 <= j < i ==> mv[j].0 != k@,
        decreases m@.len() - i,
    {
        if str_eq(m[i].0.as_str(), k.as_str()) {
            proof {
                assert(mv[i as int].0 == k@);
                lemma_hook_index(mv, k@);
                assert(hook_index(mv, k@) == i as int) by {
                    if hook_index(mv, k@) < i as int {
                        assert(mv[hook_index(mv, k@)].0 != k@);
                    }
                }
            }
            let (k0, mut arr) = m.remove(i);
            let ghost arr_v = values_view(arr@);
            let mut items = items;
            arr.append(&mut items);
            proof {
                assert(values_view(arr@) =~= arr_v + items_v);
            }
            m.insert(i, (k0, arr));
            proof {
                assert(hooks_view(m@) =~= mv.update(i as int, (mv[i as int].0, arr_v + items_v)));
            }
            return ;
        }
        i = i + 1;
    }
    proof {
        if hook_has(mv, k@) {
            let j = choose|j: int| 0 <= j < mv.len() && mv[j].0 == k@;
            assert(mv[j].0 != k@);
        }
    }
    let ghost kv = k@;
    m.push((k, items));
    proof {
        assert(hooks_view(m@) =~= mv.push((kv, items_v)));
    }
}

/// Merges one parsed hook file's top-level entries into the accumulator, as
/// the merge spec describes; an event type bound to a non-array fails with
/// that event type's name and the given path.
#[verifier::loop_isolation(false)]
pub fn merge_hook_obj(
    dest: &mut Vec<(String, Vec<Json>)>,
    src: Vec<(String, Json)>,
    path: &str,
) -> (r: Result<(), Error>)
    ensures
        match r {
            Ok(()) => merge_hook_entries_spec(hooks_view(old(dest)@), entries_view(src@)) == Ok::<
                _,
                Seq<char>,
            >(hooks_view(final(dest)@)),
            Err(e) => {
                &&& e matches Error::NotAnArray { key, path: p }
                &&& merge_hook_entries_spec(hooks_view(old(dest)@), entries_view(src@)) == Err::<
                    Seq<(Seq<char>, Seq<JsonV>)>,
                    _,
                >(key@)
                &&& p@ == path@
            },
        },
{
    let ghost sv = entries_view(src@);
    let ghost dv0 = hooks_view(old(dest)@);
    let mut src = src;
    let ghost mut taken: int = 0;
    proof {
        assert(sv.skip(0) =~= sv);
    }
    while src.len() > 0
        invariant
            0 <= taken,
            taken + src@.len() == sv.len(),
            entries_view(src@) =~= sv.skip(taken),
            merge_hook_entries_spec(hooks_view(dest@), entries_view(src@))
                == merge_hook_entries_spec(dv0, sv),
        decreases src@.len(),
    {
        let ghost dvc = hooks_view(dest@);
        let (k, v) = src.remove(0);
        proof {
            assert(entries_view(src@) =~= sv.skip(taken).drop_first());
            assert(sv.skip(taken)[0] == (k@, v@));
        }
        match v {
            Json::Arr(items) => {
                proof {
                    crate::json::lemma_jv_list(items@);
                    assert(sv.skip(taken)[0].1 == JsonV::Arr(values_view(items@)));
                }
                hook_append(dest, k, items);
                proof {
                    assert(sv.skip(taken).drop_first() =~= sv.skip(taken + 1));
                    taken = taken + 1;
                }
            },
            _ => {
                proof {
                    assert(!(sv.skip(taken)[0].1 is Arr));
                }
                return Err(
                    Error::NotAnArray { key: k, path: path.to_owned() },
                );
            },
        }
    }
    proof {
        assert(entries_view(src@) =~= Seq::<(Seq<char>, JsonV)>::empty());
    }
    Ok(())
}

/// The hook map as JSON object entries: each event type's entry list as an
/// array.
pub open spec fn hooks_obj_spec(h: Seq<(Seq<char>, Seq<JsonV>)>) -> Seq<(Seq<char>, JsonV)> {
    h.map_values(|p: (Seq<char>, Seq<JsonV>)| (p.0, JsonV::Arr(p.1)))
}

/// Converts the hook map into a JSON object value.
#[verifier::loop_isolation(false)]
pub fn hooks_to_json(m: Vec<(String, Vec<Json>)>) -> (r: Json)
    ensures
        r@ == JsonV::Obj(hooks_obj_spec(hooks_view(m@))),
{
    let ghost mv = hooks_view(m@);
    let mut m = m;
    let mut out: Vec<(String, Json)> = Vec::new();
    let ghost mut taken: int = 0;
    while m.len() > 0
        invariant
            0 <= taken,
            taken + m@.len() == mv.len(),
            hooks_view(m@) =~= mv.skip(taken),
            entries_view(out@) =~= hooks_obj_spec(mv).take(taken),
        decreases m@.len(),
    {
        let ghost prev = entries_view(out@);
        let (k, arr) = m.remove(0);
        proof {
            assert(hooks_view(m@) =~= mv.skip(taken).drop_first());
            assert(mv.skip(taken)[0] == (k@, values_view(arr@)));
            assert(mv.skip(taken).drop_first() =~= mv.skip(taken + 1));
        }
        let ghost arr_v = values_view(arr@);
        let j = Json::Arr(arr);
        proof {
            crate::json::lemma_jv_list(arr@);
        }
        out.push((k, j));
        proof {
            assert(entries_view(out@) =~= prev.push((mv[taken].0, JsonV::Arr(mv[taken].1))));
            assert(hooks_obj_spec(mv).take(taken + 1) =~= hooks_obj_spec(mv).take(taken).push(
                hooks_obj_spec(mv)[taken],
            ));
            taken = taken + 1;
        }
    }
    proof {
        assert(hooks_obj_spec(mv).take(mv.len() as int) =~= hooks_obj_spec(mv));
        crate::json::lemma_jv_entries(out@);
    }
    Json::Obj(out)
}

/// Appending under one event type leaves every other event type's array
/// unchanged.
pub proof fn lemma_hook_append_other(
    m: Seq<(Seq<char>, Seq<JsonV>)>,
    k: Seq<char>,
    items: Seq<JsonV>,
    k2: Seq<char>,
)
    requires
        k2 != k,
    ensures
        hook_get_spec(hook_append_spec(m, k, items), k2) == hook_get_spec(m, k2),
{
    let m2 = hook_append_spec(m, k, items);
    if hook_has(m, k) {
        lemma_hook_index(m, k);
        let i = hook_index(m, k);
        assert(forall|j: int| 0 <= j < m.len() && j != i ==> m2[j] == m[j]);
        if hook_has(m, k2) {
            lemma_hook_index(m, k2);
            let j = hook_index(m, k2);
            assert(j != i);
            assert(m2[j].0 == k2);
            assert(hook_has(m2, k2));
            lemma_hook_index(m2, k2);
            let j2 = hook_index(m2, k2);
            assert(j2 != i);
            assert(m[j2] == m2[j2]);
            if j2 < j {
                assert(m[j2].0 != k2);
            }
            if j < j2 {
                assert(m2[j].0 != k2);
            }
        } else {
            if hook_has(m2, k2) {
                let j2 = choose|j2: int| 0 <= j2 < m2.len() && m2[j2].0 == k2;
                assert(j2 != i);
                assert(m[j2].0 == k2);
            }
        }
    } else {
        assert(forall|j: int| 0 <= j < m.len() ==> m2[j] == m[j]);
        if hook_has(m, k2) {
            lemma_hook_index(m, k2);
            let j = hook_index(m, k2);
            assert(m2[j].0 == k2);
            assert(hook_has(m2, k2));
            lemma_hook_index(m2, k2);
            let j2 = hook_index(m2, k2);
            assert(j2 < m.len());
            if j2 < j {
                assert(m[j2].0 != k2);
            }
            if j < j2 {
                assert(m2[j].0 != k2);
            }
        } else {
            if hook_has(m2, k2) {
                let j2 = choose|j2: int| 0 <= j2 < m2.len() && m2[j2].0 == k2;
                assert(j2 < m.len());
                assert(m[j2].0 == k2);
            }
        }
    }
}

/// What one merged file leaves under an event type: the file's entries
/// for it appended onto what was there; an event type the file does not
/// mention is untouched. Requires the file's event types to be distinct,
/// as every parsed file's are.
pub proof fn lemma_merge_file_get(
    m: Seq<(Seq<char>, Seq<JsonV>)>,
    src: Seq<(Seq<char>, JsonV)>,
    m2: Seq<(Seq<char>, Seq<JsonV>)>,
    k: Seq<char>,
)
    requires
        crate::json::keys_distinct(src),
        merge_hook_entries_spec(m, src) == Ok::<_, Seq<char>>(m2),
    ensures
        hook_get_spec(m2, k) == (match crate::json::obj_get_spec(src, k) {
            Some(v) => Some(hook_base(m, k) + (match v {
                JsonV::Arr(a) => a,
                _ => Seq::empty(),
            })),
            None => hook_get_spec(m, k),
        }),
    decreases src.len(),
{
    if src.len() == 0 {
        if crate::json::obj_has_key(src, k) {
            let i = choose|i: int| 0 <= i < src.len() && src[i].0 == k;
        }
    } else {
        let items = (match src[0].1 {
            JsonV::Arr(a) => a,
            _ => Seq::empty(),
        });
        assert(src[0].1 is Arr);
        let m1 = hook_append_spec(m, src[0].0, items);
        let rest = src.drop_first();
        assert(crate::json::keys_distinct(rest)) by {
            assert(forall|i: int, j: int|
                0 <= i < j < rest.len() ==> rest[i].0 == src[i + 1].0 && rest[j].0 == src[j
                    + 1].0);
        }
        lemma_merge_file_get(m1, rest, m2, k);
        if src[0].0 == k {
            assert(!crate::json::obj_has_key(rest, k)) by {
                if crate::json::obj_has_key(rest, k) {
                    let i = choose|i: int| 0 <= i < rest.len() && rest[i].0 == k;
                    assert(src[i + 1].0 == src[0].0);
                }
            }
            lemma_hook_append_get(m, k, items);
            assert(hook_base(m1, k) == hook_base(m, k) + items);
            assert(crate::json::obj_has_key(src, k));
            crate::json::lemma_obj_key_index(src, k);
            assert(crate::json::obj_key_index(src, k) == 0);
        } else {
            lemma_hook_append_other(m, src[0].0, items, k);
            assert(crate::json::obj_has_key(src, k) == crate::json::obj_has_key(rest, k)) by {
                if crate::json::obj_has_key(src, k) {
                    let i = choose|i: int| 0 <= i < src.len() && src[i].0 == k;
                    assert(i >= 1);
                    assert(rest[i - 1].0 == k);
                }
                if crate::json::obj_has_key(rest, k) {
                    let i = choose|i: int| 0 <= i < rest.len() && rest[i].0 == k;
                    assert(src[i + 1].0 == k);
                }
            }
            if crate::json::obj_has_key(src, k) {
                crate::json::lemma_obj_key_index(src, k);
                let i = crate::json::obj_key_index(src, k);
                crate::json::lemma_obj_key_index(rest, k);
                let i2 = crate::json::obj_key_index(rest, k);
                assert(rest[i - 1].0 == k);
                if i2 < i - 1 {
                    assert(src[i2 + 1].0 == rest[i2].0);
                }
                if i - 1 < i2 {
                    assert(rest[i - 1].0 != k);
                }
                assert(src[i].1 == rest[i2].1);
            }
        }
    }
}

/// Hooks are additive across sources: merging two files that each bind
/// the same event type to an array gives, under that event type, what was
/// there, then the first file's entries, then the second file's — both
/// sources' entries in processing order, the lengths summing.
pub proof fn lemma_hook_files_additive(
    m: Seq<(Seq<char>, Seq<JsonV>)>,
    src1: Seq<(Seq<char>, JsonV)>,
    src2: Seq<(Seq<char>, JsonV)>,
    m1: Seq<(Seq<char>, Seq<JsonV>)>,
    m2: Seq<(Seq<char>, Seq<JsonV>)>,
    k: Seq<char>,
    a1: Seq<JsonV>,
    a2: Seq<JsonV>,
)
    requires
        crate::json::keys_distinct(src1),
        crate::json::keys_distinct(src2),
        merge_hook_entries_spec(m, src1) == Ok::<_, Seq<char>>(m1),
        merge_hook_entries_spec(m1, src2) == Ok::<_, Seq<char>>(m2),
        crate::json::obj_get_spec(src1, k) == Some(JsonV::Arr(a1)),
        crate::json::obj_get_spec(src2, k) == Some(JsonV::Arr(a2)),
    ensures
        hook_get_spec(m2, k) == Some(hook_base(m, k) + a1 + a2),
        hook_get_spec(m2, k) matches Some(a) && a.len() == hook_base(m, k).len() + a1.len()
            + a2.len(),
{
    lemma_merge_file_get(m, src1, m1, k);
    lemma_merge_file_get(m1, src2, m2, k);
    assert(hook_base(m1, k) == hook_base(m, k) + a1);
    assert(hook_base(m, k) + a1 + a2 =~= (hook_base(m, k) + a1) + a2);
}

/// Hooks are additive: appending two entry batches under one event type
/// gives an array holding what was there, then the first batch, then the
/// second — entries of both sources in source order, the lengths summing.
pub proof fn lemma_hooks_additive(
    m: Seq<(Seq<char>, Seq<JsonV>)>,
    k: Seq<char>,
    first: Seq<JsonV>,
    second: Seq<JsonV>,
)
    ensures
        hook_get_spec(hook_append_spec(hook_append_spec(m, k, first), k, second), k) == Some(
            hook_base(m, k) + first + second,
        ),
        hook_get_spec(hook_append_spec(hook_append_spec(m, k, first), k, second), k)
            matches Some(a) && a.len() == hook_base(m, k).len() + first.len() + second.len(),
{
    lemma_hook_append_get(m, k, first);
    let m1 = hook_append_spec(m, k, first);
    lemma_hook_append_get(m1, k, second);
    assert(hook_base(m, k) + first + second =~= (hook_base(m, k) + first) + second);
    assert(hook_base(m1, k) == hook_base(m, k) + first);
}

/// The entries already under an event type; empty when absent.
pub open spec fn hook_base(m: Seq<(Seq<char>, Seq<JsonV>)>, k: Seq<char>) -> Seq<JsonV> {
    match hook_get_spec(m, k) {
        Some(a) => a,
        None => Seq::empty(),
    }
}

/// Appending under an event type extends exactly that event type's array.
pub proof fn lemma_hook_append_get(
    m: Seq<(Seq<char>, Seq<JsonV>)>,
    k: Seq<char>,
    items: Seq<JsonV>,
)
    ensures
        hook_get_spec(hook_append_spec(m, k, items), k) == Some(hook_base(m, k) + items),
{
    let m2 = hook_append_spec(m, k, items);
    if hook_has(m, k) {
        lemma_hook_index(m, k);
        let i = hook_index(m, k);
        assert(m2[i].0 == k);
        assert(hook_has(m2, k));
        lemma_hook_index(m2, k);
        let i2 = hook_index(m2, k);
        if i2 < i {
            assert(m[i2].0 == m2[i2].0);
        }
        if i < i2 {
            assert(m2[i].0 != k);
        }
    } else {
        assert(m2[m.len() as int].0 == k);
        assert(hook_has(m2, k));
        lemma_hook_index(m2, k);
        let i2 = hook_index(m2, k);
        if i2 < m.len() {
            assert(m[i2].0 == m2[i2].0);
            assert(hook_has(m, k));
        }
        assert(Seq::<JsonV>::empty() + items =~= items);
    }
}

} // verus!
