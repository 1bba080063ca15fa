//! Planning which template entries reach the working directory.
//!
//! The top-level copy takes every entry of the fetched tree except a fixed
//! exclusion list of template-only names. A conditional directory
//! contributes its `default/` entries first, then each requested
//! language's entries in caller order — the plan's order is the copy
//! order, so later entries override earlier ones of the same name. The
//! conflict set is computed over destination names before anything is
//! written.

use vstd::prelude::*;
use crate::language::contains_name;
use crate::language::name_in;
use crate::text::str_eq;

verus! {

/// The template-only names never copied to the working directory.
pub open spec fn is_excluded_spec(name: Seq<char>) -> bool {
    ||| name == ".git"@
    ||| name == "README.md"@
    ||| name == ".gitignore"@
    ||| name == "gitignore-additions"@
    ||| name == "AGENT.md.jinja"@
    ||| name == "agent-md"@
    ||| name == "clarg"@
    ||| name == "commands"@
    ||| name == "skills"@
    ||| name == "copied"@
    ||| name == "hooks"@
    ||| name == "mcp"@
    ||| name == "settings.local.json"@
}

/// Decides whether a top-level template entry stays out of the copy.
pub fn is_excluded(name: &str) -> (r: bool)
    ensures
        r == is_excluded_spec(name@),
{
    str_eq(name, ".git") || str_eq(name, "README.md") || str_eq(name, ".gitignore") || str_eq(
        name,
        "gitignore-additions",
    ) || str_eq(name, "AGENT.md.jinja") || str_eq(name, "agent-md") || str_eq(name, "clarg")
        || str_eq(name, "commands") || str_eq(name, "skills") || str_eq(name, "copied") || str_eq(
        name,
        "hooks",
    ) || str_eq(name, "mcp") || str_eq(name, "settings.local.json")
}

/// The entries that the top-level copy takes, in listing order.
pub open spec fn copy_sources_spec(entries: Seq<Seq<char>>) -> Seq<Seq<char>>
    decreases entries.len(),
{
    if entries.len() == 0 {
        Seq::empty()
    } else {
        let rest = copy_sources_spec(entries.drop_first());
        if is_excluded_spec(entries[0]) {
            rest
        } else {
            seq![entries[0]] + rest
        }
    }
}

/// Filters a top-level listing of the fetched tree down to the entries the
/// copy takes, keeping the listing order.
#[verifier::loop_isolation(false)]
pub fn collect_copy_files_sources(entries: &Vec<String>) -> (r: Vec<String>)
    ensures
        r.deep_view() == copy_sources_spec(entries.deep_view()),
{
    let ghost ev = entries.deep_view();
    let mut out: Vec<String> = Vec::new();
    let mut i: usize = 0;
    proof {
        assert(ev.skip(0) =~= ev);
        assert(out.deep_view() + copy_sources_spec(ev) =~= copy_sources_spec(ev));
    }
    while i < entries.len()
        invariant
            i <= entries@.len(),
            out.deep_view() + copy_sources_spec(ev.skip(i as int)) =~= copy_sources_spec(ev),
        decreases entries@.len() - i,
    {
        let ghost prev = out.deep_view();
        proof {
            assert(ev.skip(i as int)[0] == ev[i as int]);
            assert(ev[i as int] == entries@[i as int]@);
        }
        if !is_excluded(entries[i].as_str()) {
            out.push(entries[i].clone());
            proof {
                assert(out.deep_view() =~= prev.push(ev[i as int]));
                assert(prev + (seq![ev[i as int]] + copy_sources_spec(ev.skip(i as int + 1)))
                    =~= out.deep_view() + copy_sources_spec(ev.skip(i as int + 1)));
            }
        }
        proof {
            assert(ev.skip(i as int).drop_first() =~= ev.skip(i as int + 1));
        }
        i = i + 1;
    }
    proof {
        assert(ev.skip(ev.len() as int) =~= Seq::<Seq<char>>::empty());
        assert(out.deep_view() + Seq::<Seq<char>>::empty() =~= out.deep_view());
    }
    out
}

/// A conditional directory's listing: whether `default/` exists and with
/// which entries, and the per-language subdirectories that exist, each
/// with its entries.
pub struct CondDirListing {
    pub default_entries: Option<Vec<String>>,
    pub lang_dirs: Vec<(String, Vec<String>)>,
}

/// The model of the per-language subdirectory list.
pub open spec fn subdirs_view(v: Seq<(String, Vec<String>)>) -> Seq<(Seq<char>, Seq<Seq<char>>)> {
    Seq::new(v.len(), |i: int| (v[i].0@, v[i].1.deep_view()))
}

/// The entries of the named subdirectory; an absent one contributes
/// nothing.
pub open spec fn subdir_entries_spec(
    dirs: Seq<(Seq<char>, Seq<Seq<char>>)>,
    name: Seq<char>,
) -> Seq<Seq<char>>
    decreases dirs.len(),
{
    if dirs.len() == 0 {
        Seq::empty()
    } else if dirs[0].0 == name {
        dirs[0].1
    } else {
        subdir_entries_spec(dirs.drop_first(), name)
    }
}

/// The names of the contributing subdirectories, in copy order:
/// `default` first when present, then each requested language that has a
/// subdirectory, in caller order.
pub open spec fn cond_dir_order_spec(
    has_default: bool,
    langs: Seq<Seq<char>>,
    present: Seq<Seq<char>>,
) -> Seq<Seq<char>>
    decreases langs.len(),
{
    if langs.len() == 0 {
        if has_default {
            seq!["default"@]
        } else {
            Seq::empty()
        }
    } else {
        cond_dir_order_spec(has_default, langs.drop_last(), present) + (if present.contains(
            langs.last(),
        ) {
            seq![langs.last()]
        } else {
            Seq::empty()
        })
    }
}

/// The subdirectory names of a listing, in order.
pub open spec fn present_subdirs(dirs: Seq<(Seq<char>, Seq<Seq<char>>)>) -> Seq<Seq<char>> {
    dirs.map_values(|p: (Seq<char>, Seq<Seq<char>>)| p.0)
}

/// Builds the ordered list of contributing subdirectory names of a
/// conditional directory: `default` first when present, then each
/// requested language that has a subdirectory, in caller order. The copy
/// applies them in this order, so a language's entry overrides a default
/// entry of the same name.
#[verifier::loop_isolation(false)]
pub fn conditional_source_dirs(cond: &CondDirListing, languages: &Vec<String>) -> (r: Vec<String>)
    ensures
        r.deep_view() == cond_dir_order_spec(
            cond.default_entries is Some,
            languages.deep_view(),
            present_subdirs(subdirs_view(cond.lang_dirs@)),
        ),
{
    let ghost langs_v = languages.deep_view();
    let ghost present = present_subdirs(subdirs_view(cond.lang_dirs@));
    let mut out: Vec<String> = Vec::new();
    match &cond.default_entries {
        Some(_) => {
            out.push(String::from_str("default"));
        },
        None => {
        },
    }
    proof {
        assert(langs_v.take(0) =~= Seq::<Seq<char>>::empty());
        if cond.default_entries is Some {
            assert(out.deep_view() =~= seq!["default"@]);
        } else {
            assert(out.deep_view() =~= Seq::<Seq<char>>::empty());
        }
    }
    let mut names: Vec<String> = Vec::new();
    let mut i: usize = 0;
    while i < cond.lang_dirs.len()
        invariant
            i <= cond.lang_dirs@.len(),
            names.deep_view() =~= present.subrange(0, i as int),
        decreases cond.lang_dirs@.len() - i,
    {
        let ghost prev = names.deep_view();
        names.push(cond.lang_dirs[i].0.clone());
        proof {
            assert(names.deep_view() =~= prev.push(present[i as int]));
        }
        i = i + 1;
    }
    proof {
        assert(present.subrange(0, present.len() as int) =~= present);
        assert(names.deep_view() == present);
    }
    let mut i: usize = 0;
    while i < languages.len()
        invariant
            i <= languages@.len(),
            names.deep_view() == present,
            out.deep_view() =~= cond_dir_order_spec(
                cond.default_entries is Some,
                langs_v.take(i as int),
                present,
            ),
        decreases languages@.len() - i,
    {
        let ghost prev = out.deep_view();
        proof {
            assert(langs_v[i as int] == languages@[i as int]@);
            assert(langs_v.take(i as int + 1).drop_last() =~= langs_v.take(i as int));
            assert(langs_v.take(i as int + 1).last() == langs_v[i as int]);
        }
        if contains_name(&names, languages[i].as_str()) {
            out.push(languages[i].clone());
            proof {
                assert(out.deep_view() =~= prev.push(langs_v[i as int]));
                assert(prev.push(langs_v[i as int]) =~= prev + seq![langs_v[i as int]]);
            }
        } else {
            proof {
                assert(prev + Seq::<Seq<char>>::empty() =~= prev);
            }
        }
        i = i + 1;
    }
    proof {
        assert(langs_v.take(langs_v.len() as int) =~= langs_v);
    }
    out
}

/// The flattened entries of the contributing subdirectories, in copy
/// order.
pub open spec fn cond_sources_spec(
    default_entries: Option<Seq<Seq<char>>>,
    langs: Seq<Seq<char>>,
    dirs: Seq<(Seq<char>, Seq<Seq<char>>)>,
) -> Seq<Seq<char>>
    decreases langs.len(),
{
    if langs.len() == 0 {
        match default_entries {
            None => Seq::empty(),
            Some(es) => es,
        }
    } else {
        cond_sources_spec(default_entries, langs.drop_last(), dirs) + subdir_entries_spec(
            dirs,
            langs.last(),
        )
    }
}

/// The model of an optional entry list.
pub open spec fn opt_entries_view(o: &Option<Vec<String>>) -> Option<Seq<Seq<char>>> {
    match o {
        None => None,
        Some(v) => Some(v.deep_view()),
    }
}

fn subdir_entries<'a>(dirs: &'a Vec<(String, Vec<String>)>, name: &str) -> (r: Option<
    &'a Vec<String>,
>)
    ensures
        match r {
            Some(es) => subdir_entries_spec(subdirs_view(dirs@), name@) == es.deep_view(),
            None => subdir_entries_spec(subdirs_view(dirs@), name@) == Seq::<Seq<char>>::empty(),
        },
{
    let ghost dv = subdirs_view(dirs@);
    let mut i: usize = 0;
    proof {
        assert(dv.skip(0) =~= dv);
    }
    while i < dirs.len()
        invariant
            dv == subdirs_view(dirs@),
            i <= dirs@.len(),
            subdir_entries_spec(dv.skip(i as int), name@) == subdir_entries_spec(dv, name@),
        decreases dirs@.len() - i,
    {
        proof {
            assert(dv.skip(i as int)[0] == dv[i as int]);
        }
        if str_eq(dirs[i].0.as_str(), name) {
            return Some(&dirs[i].1);
        }
        proof {
            assert(dv.skip(i as int).drop_first() =~= dv.skip(i as int + 1));
        }
        i = i + 1;
    }
    proof {
        assert(dv.skip(dv.len() as int) =~= Seq::<(Seq<char>, Seq<Seq<char>>)>::empty());
    }
    None
}

/// Flattens the entries that a conditional directory contributes:
/// `default/` entries first when present, then each requested language's
/// entries in caller order; an absent subdirectory contributes nothing.
#[verifier::loop_isolation(false)]
pub fn collect_conditional_dir_sources(cond: &CondDirListing, languages: &Vec<String>) -> (r: Vec<
    String,
>)
    ensures
        r.deep_view() == cond_sources_spec(
            opt_entries_view(&cond.default_entries),
            languages.deep_view(),
            subdirs_view(cond.lang_dirs@),
        ),
{
    let ghost langs_v = languages.deep_view();
    let ghost dirs_v = subdirs_view(cond.lang_dirs@);
    let ghost dflt = opt_entries_view(&cond.default_entries);
    let mut out: Vec<String> = Vec::new();
    match &cond.default_entries {
        Some(es) => {
            let mut copy = es.clone();
            out.append(&mut copy);
            proof {
                assert(out.deep_view() =~= es.deep_view());
            }
        },
        None => {
            proof {
                assert(out.deep_view() =~= Seq::<Seq<char>>::empty());
            }
        },
    }
    let mut i: usize = 0;
    proof {
        assert(langs_v.take(0) =~= Seq::<Seq<char>>::empty());
    }
    while i < languages.len()
        invariant
            i <= languages@.len(),
            out.deep_view() =~= cond_sources_spec(dflt, langs_v.take(i as int), dirs_v),
        decreases languages@.len() - i,
    {
        let ghost prev = out.deep_view();
        proof {
            assert(langs_v[i as int] == languages@[i as int]@);
            assert(langs_v.take(i as int + 1).drop_last() =~= langs_v.take(i as int));
            assert(langs_v.take(i as int + 1).last() == langs_v[i as int]);
        }
        match subdir_entries(&cond.lang_dirs, languages[i].as_str()) {
            Some(es) => {
                let mut copy = es.clone();
                let ghost es_v = es.deep_view();
                out.append(&mut copy);
                proof {
                    assert(out.deep_view() =~= prev + es_v);
                }
            },
            None => {
                proof {
                    assert(prev + Seq::<Seq<char>>::empty() =~= prev);
                }
            },
        }
        i = i + 1;
    }
    proof {
        assert(langs_v.take(langs_v.len() as int) =~= langs_v);
    }
    out
}

/// The conflict set of a write plan: the destination names, first
/// occurrence of each, that already exist in the working directory.
pub open spec fn conflicts_from_spec(
    names: Seq<Seq<char>>,
    existing: Seq<Seq<char>>,
    seen: Seq<Seq<char>>,
) -> Seq<Seq<char>>
    decreases names.len(),
{
    if names.len() == 0 {
        Seq::empty()
    } else {
        let rest = conflicts_from_spec(names.drop_first(), existing, seen.push(names[0]));
        if !seen.contains(names[0]) && existing.contains(names[0]) {
            seq![names[0]] + rest
        } else {
            rest
        }
    }
}

/// The conflict set of a write plan against the existing entries.
pub open spec fn conflicts_spec(names: Seq<Seq<char>>, existing: Seq<Seq<char>>) -> Seq<Seq<char>> {
    conflicts_from_spec(names, existing, Seq::empty())
}

/// Collects the destination names that already exist: each planned name
/// once (first occurrence kept), filtered to those present among the
/// existing entries.
#[verifier::loop_isolation(false)]
pub fn collect_conflicts(source_names: &Vec<String>, existing: &Vec<String>) -> (r: Vec<String>)
    ensures
        r.deep_view() == conflicts_spec(source_names.deep_view(), existing.deep_view()),
{
    let ghost names_v = source_names.deep_view();
    let ghost ex_v = existing.deep_view();
    let mut out: Vec<String> = Vec::new();
    let mut seen: Vec<String> = Vec::new();
    let mut i: usize = 0;
    proof {
        assert(names_v.skip(0) =~= names_v);
        assert(seen.deep_view() =~= names_v.take(0));
        assert(out.deep_view() + conflicts_from_spec(names_v, ex_v, names_v.take(0))
            =~= conflicts_spec(names_v, ex_v)) by {
            assert(names_v.take(0) =~= Seq::<Seq<char>>::empty());
        }
    }
    while i < source_names.len()
        invariant
            i <= source_names@.len(),
            seen.deep_view() =~= names_v.take(i as int),
            out.deep_view() + conflicts_from_spec(names_v.skip(i as int), ex_v, names_v.take(
                i as int,
            )) =~= conflicts_spec(names_v, ex_v),
        decreases source_names@.len() - i,
    {
        let ghost prev = out.deep_view();
        let name = &source_names[i];
        proof {
            assert(names_v.skip(i as int)[0] == names_v[i as int]);
            assert(names_v[i as int] == source_names@[i as int]@);
        }
        if !contains_name(&seen, name.as_str()) && contains_name(existing, name.as_str()) {
            out.push(name.clone());
            proof {
                assert(out.deep_view() =~= prev.push(names_v[i as int]));
                assert(prev + (seq![names_v[i as int]] + conflicts_from_spec(
                    names_v.skip(i as int + 1),
                    ex_v,
                    names_v.take(i as int).push(names_v[i as int]),
                )) =~= out.deep_view() + conflicts_from_spec(
                    names_v.skip(i as int + 1),
                    ex_v,
                    names_v.take(i as int).push(names_v[i as int]),
                ));
            }
        }
        seen.push(name.clone());
        proof {
            assert(seen.deep_view() =~= names_v.take(i as int + 1));
            assert(names_v.take(i as int).push(names_v[i as int]) =~= names_v.take(i as int + 1));
            assert(names_v.skip(i as int).drop_first() =~= names_v.skip(i as int + 1));
        }
        i = i + 1;
    }
    proof {
        assert(names_v.skip(names_v.len() as int) =~= Seq::<Seq<char>>::empty());
        assert(out.deep_view() + Seq::<Seq<char>>::empty() =~= out.deep_view());
    }
    out
}

/// Every planned name that exists in the working directory appears in the
/// conflict set, and everything in the conflict set is a planned name that
/// exists: the preflight check misses nothing.
pub proof fn lemma_conflicts_complete(names: Seq<Seq<char>>, existing: Seq<Seq<char>>, n: Seq<char>)
    ensures
        conflicts_spec(names, existing).contains(n) == (names.contains(n) && existing.contains(n)),
{
    lemma_conflicts_from(names, existing, Seq::empty(), n);
}

proof fn lemma_conflicts_from(
    names: Seq<Seq<char>>,
    existing: Seq<Seq<char>>,
    seen: Seq<Seq<char>>,
    n: Seq<char>,
)
    ensures
        conflicts_from_spec(names, existing, seen).contains(n) == (names.contains(n)
            && existing.contains(n) && !seen.contains(n)),
    decreases names.len(),
{
    if names.len() == 0 {
        if names.contains(n) {
            let i = choose|i: int| 0 <= i < names.len() && names[i] == n;
        }
    } else {
        lemma_conflicts_from(names.drop_first(), existing, seen.push(names[0]), n);
        let rest = conflicts_from_spec(names.drop_first(), existing, seen.push(names[0]));
        let cur = conflicts_from_spec(names, existing, seen);
        assert(seen.push(names[0]).contains(n) == (seen.contains(n) || names[0] == n)) by {
            if seen.push(names[0]).contains(n) {
                let i = choose|i: int| 0 <= i < seen.push(names[0]).len() && seen.push(
                    names[0],
                )[i] == n;
                if i < seen.len() {
                    assert(seen[i] == n);
                }
            }
            if seen.contains(n) {
                let i = choose|i: int| 0 <= i < seen.len() && seen[i] == n;
                assert(seen.push(names[0])[i] == n);
            }
            if names[0] == n {
                assert(seen.push(names[0])[seen.len() as int] == n);
            }
        }
        assert(names.contains(n) == (names[0] == n || names.drop_first().contains(n))) by {
            if names.contains(n) && names[0] != n {
                let i = choose|i: int| 0 <= i < names.len() && names[i] == n;
                assert(names.drop_first()[i - 1] == n);
            }
            if names.drop_first().contains(n) {
                let i = choose|i: int| 0 <= i < names.drop_first().len() && names.drop_first()[i]
                    == n;
                assert(names[i + 1] == n);
            }
        }
        if !seen.contains(names[0]) && existing.contains(names[0]) {
            assert(cur == seq![names[0]] + rest);
            assert(cur.contains(n) == (names[0] == n || rest.contains(n))) by {
                if cur.contains(n) && names[0] != n {
                    let i = choose|i: int| 0 <= i < cur.len() && cur[i] == n;
                    assert(rest[i - 1] == n);
                }
                if rest.contains(n) {
                    let i = choose|i: int| 0 <= i < rest.len() && rest[i] == n;
                    assert(cur[i + 1] == n);
                }
                if names[0] == n {
                    assert(cur[0] == n);
                }
            }
        }
    }
}

} // verus!
