//! Building the settings document (`settings.local.json`).
//!
//! The base settings document keeps its own keys, but its `hooks` key is
//! replaced outright by the merged hook map — every file under
//! `hooks/default/` (sorted by filename), then each explicitly named hook
//! file in caller order, then any guard entries appended under one fixed
//! event type. The enabled-server-name list replaces the
//! `enabledMcpjsonServers` key the same way.

use vstd::prelude::*;
use crate::errors::Error;
use crate::hooks::hook_append;
use crate::hooks::hook_append_spec;
use crate::hooks::hooks_obj_spec;
use crate::hooks::hooks_to_json;
use crate::hooks::hooks_view;
use crate::hooks::merge_hook_entries_spec;
use crate::hooks::merge_hook_obj;
use crate::json::entries_view;
use crate::json::jv_entries;
use crate::json::obj_put;
use crate::json::obj_put_spec;
use crate::json::parse_json;
use crate::json::parsed_json;
use crate::json::values_view;
use crate::json::Json;
use crate::json::JsonV;
use crate::mcp::file_names;
use crate::text::assoc_get;
use crate::text::assoc_get_spec;
use crate::text::pairs_view;
use vstd::string::StringExecFns;

verus! {

/// The hook definition files of a fragment tree, contents pre-read: the
/// files under `hooks/default/` (sorted by filename) and the top-level
/// `hooks/<stem>.json` files.
pub struct HooksDir {
    pub default_files: Vec<(String, String)>,
    pub named_files: Vec<(String, String)>,
}

/// Why building the settings document fails.
pub enum SettingsFailure {
    /// The base settings text does not parse as JSON.
    BadBase,
    /// The base settings text parses, but not to an object.
    BaseNotObject,
    /// The hook file at this path does not parse as JSON.
    BadFile(Seq<char>),
    /// The hook file at this path parses, but not to an object.
    FileNotObject(Seq<char>),
    /// This event type (first field) in the file at this path (second
    /// field) is not bound to an array.
    NotArray(Seq<char>, Seq<char>),
    /// This requested hook name has no definition file.
    MissingHook(Seq<char>),
}

/// Merges a list of hook files into the accumulator, file by file in
/// order.
pub open spec fn merge_hook_files_spec(
    m: Seq<(Seq<char>, Seq<JsonV>)>,
    files: Seq<(Seq<char>, Seq<char>)>,
    prefix: Seq<char>,
) -> Result<Seq<(Seq<char>, Seq<JsonV>)>, SettingsFailure>
    decreases files.len(),
{
    if files.len() == 0 {
        Ok(m)
    } else {
        match parsed_json(files[0].1) {
            None => Err(SettingsFailure::BadFile(prefix + files[0].0)),
            Some(JsonV::Obj(src)) => match merge_hook_entries_spec(m, src) {
                Ok(m2) => merge_hook_files_spec(m2, files.drop_first(), prefix),
                Err(k) => Err(SettingsFailure::NotArray(k, prefix + files[0].0)),
            },
            Some(_) => Err(SettingsFailure::FileNotObject(prefix + files[0].0)),
        }
    }
}

/// Merges each explicitly named hook file, in caller order; a missing name
/// fails the merge.
pub open spec fn merge_named_hooks_spec(
    m: Seq<(Seq<char>, Seq<JsonV>)>,
    names: Seq<Seq<char>>,
    named_files: Seq<(Seq<char>, Seq<char>)>,
) -> Result<Seq<(Seq<char>, Seq<JsonV>)>, SettingsFailure>
    decreases names.len(),
{
    if names.len() == 0 {
        Ok(m)
    } else {
        let path = "hooks/"@ + names[0] + ".json"@;
        match assoc_get_spec(named_files, names[0]) {
            None => Err(SettingsFailure::MissingHook(names[0])),
            Some(text) => match parsed_json(text) {
                None => Err(SettingsFailure::BadFile(path)),
                Some(JsonV::Obj(src)) => match merge_hook_entries_spec(m, src) {
                    Ok(m2) => merge_named_hooks_spec(m2, names.drop_first(), named_files),
                    Err(k) => Err(SettingsFailure::NotArray(k, path)),
                },
                Some(_) => Err(SettingsFailure::FileNotObject(path)),
            },
        }
    }
}

/// Appends each pre-built guard entry under the fixed event type, in
/// order.
pub open spec fn append_clarg_spec(
    m: Seq<(Seq<char>, Seq<JsonV>)>,
    entries: Seq<JsonV>,
) -> Seq<(Seq<char>, Seq<JsonV>)>
    decreases entries.len(),
{
    if entries.len() == 0 {
        m
    } else {
        append_clarg_spec(hook_append_spec(m, "PreToolUse"@, seq![entries[0]]), entries.drop_first())
    }
}

/// The enabled-server names as an array of strings.
pub open spec fn names_arr_spec(names: Seq<Seq<char>>) -> Seq<JsonV> {
    names.map_values(|n: Seq<char>| JsonV::Str(n))
}

/// The finished settings document: the base object with its `hooks` key
/// replaced by the merged hook map and its `enabledMcpjsonServers` key
/// replaced by the enabled-server names.
pub open spec fn settings_doc_spec(
    base: Seq<(Seq<char>, JsonV)>,
    hooks: Seq<(Seq<char>, Seq<JsonV>)>,
    names: Seq<Seq<char>>,
) -> JsonV {
    JsonV::Obj(
        obj_put_spec(
            obj_put_spec(base, "hooks"@, JsonV::Obj(hooks_obj_spec(hooks))),
            "enabledMcpjsonServers"@,
            JsonV::Arr(names_arr_spec(names)),
        ),
    )
}

/// The model of an optional pre-read text.
pub open spec fn opt_text_view(o: &Option<String>) -> Option<Seq<char>> {
    match o {
        None => None,
        Some(s) => Some(s@),
    }
}

/// The whole build: parse the base (an absent base is the empty object),
/// merge default and named hook files, append guard entries, and replace
/// the two keys.
pub open spec fn build_settings_spec(
    base: Option<Seq<char>>,
    default_files: Seq<(Seq<char>, Seq<char>)>,
    named: Seq<Seq<char>>,
    named_files: Seq<(Seq<char>, Seq<char>)>,
    clarg: Seq<JsonV>,
    mcp_names: Seq<Seq<char>>,
) -> Result<JsonV, SettingsFailure> {
    let base_r = match base {
        None => Ok(Seq::<(Seq<char>, JsonV)>::empty()),
        Some(text) => match parsed_json(text) {
            None => Err(SettingsFailure::BadBase),
            Some(JsonV::Obj(m)) => Ok(m),
            Some(_) => Err(SettingsFailure::BaseNotObject),
        },
    };
    match base_r {
        Err(f) => Err(f),
        Ok(b) => match merge_hook_files_spec(Seq::empty(), default_files, "hooks/default/"@) {
            Err(f) => Err(f),
            Ok(h1) => match merge_named_hooks_spec(h1, named, named_files) {
                Err(f) => Err(f),
                Ok(h2) => Ok(settings_doc_spec(b, append_clarg_spec(h2, clarg), mcp_names)),
            },
        },
    }
}

fn hook_path(name: &str) -> (r: String)
    ensures
        r@ == "hooks/"@ + name@ + ".json"@,
{
    let mut p = String::new();
    p.append("hooks/");
    p.append(name);
    p.append(".json");
    p
}

/// Merges one list of pre-read hook files into the accumulator, as the
/// file-list merge spec describes.
#[verifier::loop_isolation(false)]
fn merge_hook_files(
    m: &mut Vec<(String, Vec<Json>)>,
    files: &Vec<(String, String)>,
    prefix: &str,
) -> (r: Result<(), Error>)
    ensures
        match r {
            Ok(()) => merge_hook_files_spec(hooks_view(old(m)@), pairs_view(files@), prefix@)
                == Ok::<_, SettingsFailure>(hooks_view(final(m)@)),
            Err(e) => {
                let s = merge_hook_files_spec(hooks_view(old(m)@), pairs_view(files@), prefix@);
                match s {
                    Ok(_) => false,
                    Err(SettingsFailure::BadFile(p)) => e matches Error::JsonParse { path }
                        && path@ == p,
                    Err(SettingsFailure::FileNotObject(p)) => e matches Error::NotAnObject {
                        path,
                    } && path@ == p,
                    Err(SettingsFailure::NotArray(k, p)) => e matches Error::NotAnArray {
                        key,
                        path,
                    } && key@ == k && path@ == p,
                    Err(_) => false,
                }
            },
        },
{
    let ghost fv = pairs_view(files@);
    let ghost m0 = hooks_view(old(m)@);
    let mut i: usize = 0;
    proof {
        assert(fv.skip(0) =~= fv);
    }
    while i < files.len()
        invariant
            fv == pairs_view(files@),
            i <= files@.len(),
            merge_hook_files_spec(hooks_view(m@), fv.skip(i as int), prefix@)
                == merge_hook_files_spec(m0, fv, prefix@),
        decreases files@.len() - i,
    {
        proof {
            assert(fv.skip(i as int)[0] == (files@[i as int].0@, files@[i as int].1@));
        }
        let parsed = parse_json(files[i].1.as_str());
        match parsed {
            Some(Json::Obj(src)) => {
                proof {
                    crate::json::lemma_jv_entries(src@);
                }
                let path = crate::text::concat2(prefix, files[i].0.as_str());
                match merge_hook_obj(m, src, path.as_str()) {
                    Ok(()) => (),
                    Err(e) => {
                        return Err(e);
                    },
                }
                proof {
                    assert(fv.skip(i as int).drop_first() =~= fv.skip(i as int + 1));
                }
            },
            Some(other) => {
                proof {
                    assert(!(other@ is Obj)) by {
                        assert(!(other is Obj));
                    }
                }
                let path = crate::text::concat2(prefix, files[i].0.as_str());
                return Err(Error::NotAnObject { path });
            },
            None => {
                let path = crate::text::concat2(prefix, files[i].0.as_str());
                return Err(Error::JsonParse { path });
            },
        }
        i = i + 1;
    }
    proof {
        assert(fv.skip(fv.len() as int) =~= Seq::<(Seq<char>, Seq<char>)>::empty());
    }
    Ok(())
}

/// Builds the settings document from the pre-read base text, the hook
/// definition files, the explicitly named hooks, the pre-built guard
/// entries, and the enabled-server names. A named hook that has no file
/// fails the build, listing the names that do.
#[verifier::loop_isolation(false)]
pub fn build_settings(
    base_settings: &Option<String>,
    hooks_dir: &HooksDir,
    named_hooks: &Vec<String>,
    clarg_entries: Vec<Json>,
    active_mcp_names: &Vec<String>,
) -> (r: Result<Json, Error>)
    ensures
        ({
            let s = build_settings_spec(
                opt_text_view(base_settings),
                pairs_view(hooks_dir.default_files@),
                named_hooks.deep_view(),
                pairs_view(hooks_dir.named_files@),
                values_view(clarg_entries@),
                active_mcp_names.deep_view(),
            );
            match r {
                Ok(doc) => s == Ok::<_, SettingsFailure>(doc@),
                Err(e) => match s {
                    Ok(_) => false,
                    Err(SettingsFailure::BadBase) => e matches Error::JsonParse { path } && path@
                        == "settings.local.json"@,
                    Err(SettingsFailure::BaseNotObject) => e matches Error::NotAnObject { path }
                        && path@ == "settings.local.json"@,
                    Err(SettingsFailure::BadFile(p)) => e matches Error::JsonParse { path }
                        && path@ == p,
                    Err(SettingsFailure::FileNotObject(p)) => e matches Error::NotAnObject { path }
                        && path@ == p,
                    Err(SettingsFailure::NotArray(k, p)) => e matches Error::NotAnArray {
                        key,
                        path,
                    } && key@ == k && path@ == p,
                    Err(SettingsFailure::MissingHook(n)) => e matches Error::HookNotFound {
                        name,
                        available,
                    } && name@ == n && available.deep_view() == file_names(
                        pairs_view(hooks_dir.named_files@),
                    ),
                },
            }
        }),
{
    let mut base: Vec<(String, Json)> = Vec::new();
    match base_settings {
        None => {
            proof {
                assert(entries_view(base@) =~= Seq::<(Seq<char>, JsonV)>::empty());
            }
        },
        Some(text) => {
            let parsed = parse_json(text.as_str());
            match parsed {
                Some(Json::Obj(entries)) => {
                    proof {
                        crate::json::lemma_jv_entries(entries@);
                    }
                    base = entries;
                },
                Some(other) => {
                    proof {
                        assert(!(other@ is Obj)) by {
                            assert(!(other is Obj));
                        }
                    }
                    return Err(
                        Error::NotAnObject { path: String::from_str("settings.local.json") },
                    );
                },
                None => {
                    return Err(
                        Error::JsonParse { path: String::from_str("settings.local.json") },
                    );
                },
            }
        },
    }
    let ghost base_v = entries_view(base@);
    let mut merged: Vec<(String, Vec<Json>)> = Vec::new();
    proof {
        assert(hooks_view(merged@) =~= Seq::<(Seq<char>, Seq<JsonV>)>::empty());
    }
    match merge_hook_files(&mut merged, &hooks_dir.default_files, "hooks/default/") {
        Ok(()) => (),
        Err(e) => {
            return Err(e);
        },
    }
    let ghost h1 = hooks_view(merged@);
    let ghost names_v = named_hooks.deep_view();
    let ghost named_files_v = pairs_view(hooks_dir.named_files@);
    let mut i: usize = 0;
    proof {
        assert(names_v.skip(0) =~= names_v);
    }
    while i < named_hooks.len()
        invariant
            i <= named_hooks@.len(),
            merge_named_hooks_spec(hooks_view(merged@), names_v.skip(i as int), named_files_v)
                == merge_named_hooks_spec(h1, names_v, named_files_v),
        decreases named_hooks@.len() - i,
    {
        let name = &named_hooks[i];
        proof {
            assert(names_v.skip(i as int)[0] == names_v[i as int]);
            assert(names_v[i as int] == named_hooks@[i as int]@);
        }
        let path = hook_path(name.as_str());
        match assoc_get(&hooks_dir.named_files, name.as_str()) {
            None => {
                let available = crate::mcp::stem_list(&hooks_dir.named_files);
                return Err(Error::HookNotFound { name: name.clone(), available });
            },
            Some(text) => {
                let parsed = parse_json(text.as_str());
                match parsed {
                    Some(Json::Obj(src)) => {
                        proof {
                            crate::json::lemma_jv_entries(src@);
                        }
                        match merge_hook_obj(&mut merged, src, path.as_str()) {
                            Ok(()) => (),
                            Err(e) => {
                                return Err(e);
                            },
                        }
                    },
                    Some(other) => {
                        proof {
                            assert(!(other@ is Obj)) by {
                                assert(!(other is Obj));
                            }
                        }
                        return Err(Error::NotAnObject { path });
                    },
                    None => {
                        return Err(Error::JsonParse { path });
                    },
                }
            },
        }
        proof {
            assert(names_v.skip(i as int).drop_first() =~= names_v.skip(i as int + 1));
        }
        i = i + 1;
    }
    proof {
        assert(names_v.skip(names_v.len() as int) =~= Seq::<Seq<char>>::empty());
    }
    let ghost h2 = hooks_view(merged@);
    let ghost clarg_v = values_view(clarg_entries@);
    let mut clarg_entries = clarg_entries;
    let ghost mut taken: int = 0;
    proof {
        assert(clarg_v.skip(0) =~= clarg_v);
    }
    while clarg_entries.len() > 0
        invariant
            0 <= taken,
            taken + clarg_entries@.len() == clarg_v.len(),
            values_view(clarg_entries@) =~= clarg_v.skip(taken),
            append_clarg_spec(hooks_view(merged@), values_view(clarg_entries@))
                == append_clarg_spec(h2, clarg_v),
        decreases clarg_entries@.len(),
    {
        let entry = clarg_entries.remove(0);
        proof {
            assert(values_view(clarg_entries@) =~= clarg_v.skip(taken).drop_first());
            assert(clarg_v.skip(taken)[0] == entry@);
        }
        let mut one: Vec<Json> = Vec::new();
        let ghost ev = entry@;
        one.push(entry);
        proof {
            assert(values_view(one@) =~= seq![ev]);
        }
        hook_append(&mut merged, String::from_str("PreToolUse"), one);
        proof {
            assert(clarg_v.skip(taken).drop_first() =~= clarg_v.skip(taken + 1));
            taken = taken + 1;
        }
    }
    proof {
        assert(values_view(clarg_entries@) =~= Seq::<JsonV>::empty());
    }
    let ghost h3 = hooks_view(merged@);
    let hooks_json = hooks_to_json(merged);
    obj_put(&mut base, String::from_str("hooks"), hooks_json);
    let mut names_arr: Vec<Json> = Vec::new();
    let mut i: usize = 0;
    proof {
        assert(values_view(names_arr@) =~= names_arr_spec(
            active_mcp_names.deep_view(),
        ).take(0));
    }
    while i < active_mcp_names.len()
        invariant
            i <= active_mcp_names@.len(),
            values_view(names_arr@) =~= names_arr_spec(active_mcp_names.deep_view()).take(
                i as int,
            ),
        decreases active_mcp_names@.len() - i,
    {
        let ghost prev = values_view(names_arr@);
        names_arr.push(Json::Str(active_mcp_names[i].clone()));
        proof {
            assert(values_view(names_arr@) =~= prev.push(
                JsonV::Str(active_mcp_names@[i as int]@),
            ));
            assert(names_arr_spec(active_mcp_names.deep_view()).take(i as int + 1)
                =~= names_arr_spec(active_mcp_names.deep_view()).take(i as int).push(
                names_arr_spec(active_mcp_names.deep_view())[i as int],
            ));
        }
        i = i + 1;
    }
    proof {
        assert(names_arr_spec(active_mcp_names.deep_view()).take(
            active_mcp_names.deep_view().len() as int,
        ) =~= names_arr_spec(active_mcp_names.deep_view()));
        crate::json::lemma_jv_list(names_arr@);
    }
    obj_put(&mut base, String::from_str("enabledMcpjsonServers"), Json::Arr(names_arr));
    proof {
        crate::json::lemma_jv_entries(base@);
    }
    Ok(Json::Obj(base))
}

} // verus!
