//! Planning the guard-profile integration.
//!
//! A guard profile is a YAML file in the template's `clarg/` directory.
//! Enabling one copies it under a fixed name into the generated settings
//! directory and contributes one hook entry that runs the guard against
//! the copied file. The file copy itself happens outside the library; the
//! plan here fixes the names and the entry.

use vstd::prelude::*;
use vstd::string::StringExecFns;
use crate::errors::Error;
use crate::json::jv_entries;
use crate::json::jv_list;
use crate::json::Json;
use crate::json::JsonV;
use crate::language::contains_name;
use crate::language::name_in;

verus! {

/// What enabling a guard profile will do: copy the source file to the
/// destination name, and add the entry to the fixed hook event type.
#[derive(Debug)]
pub struct ClargPlan {
    pub source_name: String,
    pub dest_name: String,
    pub entry: Json,
}

/// The guard command line of a profile.
pub open spec fn clarg_command_spec(name: Seq<char>) -> Seq<char> {
    "clarg .agent/clarg-"@ + name + ".yaml"@
}

/// The hook entry of a profile: one command hook running the guard
/// against the copied file.
pub open spec fn clarg_entry_spec(name: Seq<char>) -> JsonV {
    JsonV::Obj(
        seq![
            ("hooks"@, JsonV::Arr(
                seq![
                    JsonV::Obj(
                        seq![
                            ("type"@, JsonV::Str("command"@)),
                            ("command"@, JsonV::Str(clarg_command_spec(name))),
                        ],
                    ),
                ],
            )),
        ],
    )
}

/// Picks the profile to enable: the explicitly requested one when there is
/// one, else `default` when the template offers a `default` profile, else
/// none.
pub fn choose_clarg(explicit: &Option<String>, stems: &Option<Vec<String>>) -> (r: Option<String>)
    ensures
        match explicit {
            Some(name) => r matches Some(c) && c@ == name@,
            None => match stems {
                Some(list) => if name_in(list.deep_view(), "default"@) {
                    r matches Some(c) && c@ == "default"@
                } else {
                    r is None
                },
                None => r is None,
            },
        },
{
    match explicit {
        Some(name) => Some(name.clone()),
        None => match stems {
            Some(list) => {
                if contains_name(list, "default") {
                    Some(String::from_str("default"))
                } else {
                    None
                }
            },
            None => None,
        },
    }
}

/// Plans the integration of the named profile: it must be one of the
/// profile stems the template offers — an absent `clarg/` directory
/// offers none — or planning fails, listing the stems that exist. The
/// plan copies `<name>.yaml` to `clarg-<name>.yaml` and contributes the
/// profile's hook entry.
pub fn plan_clarg(name: &str, clarg_stems: &Option<Vec<String>>) -> (r: Result<ClargPlan, Error>)
    ensures
        ({
            let offered = match clarg_stems {
                Some(list) => list.deep_view(),
                None => Seq::<Seq<char>>::empty(),
            };
            match r {
                Ok(plan) => {
                    &&& name_in(offered, name@)
                    &&& plan.source_name@ == name@ + ".yaml"@
                    &&& plan.dest_name@ == "clarg-"@ + name@ + ".yaml"@
                    &&& plan.entry@ == clarg_entry_spec(name@)
                },
                Err(e) => {
                    &&& !name_in(offered, name@)
                    &&& e matches Error::ClargNotFound { name: n, available } && n@ == name@
                        && available.deep_view() == offered
                },
            }
        }),
{
    let found = match clarg_stems {
        Some(list) => contains_name(list, name),
        None => false,
    };
    if !found {
        let available = match clarg_stems {
            Some(list) => list.clone(),
            None => Vec::new(),
        };
        proof {
            match clarg_stems {
                Some(list) => {
                    assert(available.deep_view() =~= list.deep_view());
                },
                None => {
                    assert(available.deep_view() =~= Seq::<Seq<char>>::empty());
                },
            }
        }
        return Err(Error::ClargNotFound { name: name.to_owned(), available });
    }
    let mut source_name = String::new();
    source_name.append(name);
    source_name.append(".yaml");
    let mut dest_name = String::new();
    dest_name.append("clarg-");
    dest_name.append(name);
    dest_name.append(".yaml");
    let mut command = String::new();
    command.append("clarg .agent/clarg-");
    command.append(name);
    command.append(".yaml");
    let mut inner: Vec<(String, Json)> = Vec::new();
    inner.push((String::from_str("type"), Json::Str(String::from_str("command"))));
    inner.push((String::from_str("command"), Json::Str(command)));
    proof {
        assert(jv_entries(inner@) =~= seq![
            ("type"@, JsonV::Str("command"@)),
            ("command"@, JsonV::Str(clarg_command_spec(name@))),
        ]) by {
            reveal_with_fuel(jv_entries, 3);
            assert(inner@.drop_first().drop_first() =~= Seq::<(String, Json)>::empty());
            assert(jv_entries(inner@.drop_first().drop_first()) =~= Seq::<
                (Seq<char>, JsonV),
            >::empty());
            assert(inner@.drop_first()[0] == inner@[1]);
        }
    }
    let ghost inner_v = jv_entries(inner@);
    let mut arr: Vec<Json> = Vec::new();
    arr.push(Json::Obj(inner));
    proof {
        assert(jv_list(arr@) =~= seq![JsonV::Obj(inner_v)]) by {
            reveal_with_fuel(jv_list, 2);
            assert(arr@.drop_first() =~= Seq::<Json>::empty());
            assert(jv_list(arr@.drop_first()) =~= Seq::<JsonV>::empty());
        }
    }
    let entry = crate::json::singleton_obj("hooks", Json::Arr(arr));
    Ok(ClargPlan { source_name, dest_name, entry })
}

} // verus!
