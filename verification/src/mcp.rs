//! Assembly of the server manifest (`.mcp.json`).
//!
//! Server definition files are merged in a fixed order — every file under
//! `mcp/default/`, then the files of each requested language's directory,
//! then each explicitly named file — and on a name collision the later
//! source wins. An explicitly named server must exist or the whole
//! assembly fails.

use vstd::prelude::*;
use vstd::string::StringExecFns;
use crate::errors::Error;
use crate::json::entries_view;
use crate::json::jv_entries;
use crate::json::singleton_obj;
use crate::json::obj_extend;
use crate::json::obj_extend_spec;
use crate::json::obj_key_list;
use crate::json::obj_keys;
use crate::json::parse_json;
use crate::json::parsed_json;
use crate::json::Json;
use crate::json::JsonV;
use crate::text::assoc_get;
use crate::text::assoc_get_spec;
use crate::text::pairs_view;

verus! {

/// The server definition files of a fragment tree, contents pre-read: the
/// files under `mcp/default/` (sorted by filename), the files of each
/// per-language subdirectory that exists (each sorted by filename), and the
/// top-level `mcp/<stem>.json` files.
pub struct McpDir {
    pub default_files: Vec<(String, String)>,
    pub lang_dirs: Vec<(String, Vec<(String, String)>)>,
    pub named_files: Vec<(String, String)>,
}

/// The model of the per-language directory list.
pub open spec fn lang_dirs_view(v: Seq<(String, Vec<(String, String)>)>) -> Seq<
    (Seq<char>, Seq<(Seq<char>, Seq<char>)>),
> {
    Seq::new(v.len(), |i: int| (v[i].0@, pairs_view(v[i].1@)))
}

/// The names of a file list, in order.
pub open spec fn file_names(files: Seq<(Seq<char>, Seq<char>)>) -> Seq<Seq<char>> {
    files.map_values(|p: (Seq<char>, Seq<char>)| p.0)
}

/// The top-level entries of a text that parses as a JSON object.
pub open spec fn parse_obj_spec(text: Seq<char>) -> Option<Seq<(Seq<char>, JsonV)>> {
    match parsed_json(text) {
        Some(JsonV::Obj(m)) => Some(m),
        _ => None,
    }
}

/// Why assembly fails.
pub enum McpFailure {
    /// Names were requested but there is no server directory.
    NoDir,
    /// The file at this path does not parse as a JSON object.
    BadFile(Seq<char>),
    /// This requested name has no definition file.
    MissingName(Seq<char>),
}

/// Merges a directory's files into the accumulated entries, file by file in
/// order; fails with the path of the first file that is not a JSON object.
pub open spec fn merge_files_spec(
    acc: Seq<(Seq<char>, JsonV)>,
    files: Seq<(Seq<char>, Seq<char>)>,
    prefix: Seq<char>,
) -> Result<Seq<(Seq<char>, JsonV)>, McpFailure>
    decreases files.len(),
{
    if files.len() == 0 {
        Ok(acc)
    } else {
        match parse_obj_spec(files[0].1) {
            Some(m) => merge_files_spec(obj_extend_spec(acc, m), files.drop_first(), prefix),
            None => Err(McpFailure::BadFile(prefix + files[0].0)),
        }
    }
}

/// The file list of the given language's directory; an absent directory
/// contributes nothing.
pub open spec fn dir_lookup_spec(
    dirs: Seq<(Seq<char>, Seq<(Seq<char>, Seq<char>)>)>,
    name: Seq<char>,
) -> Seq<(Seq<char>, Seq<char>)>
    decreases dirs.len(),
{
    if dirs.len() == 0 {
        Seq::empty()
    } else if dirs[0].0 == name {
        dirs[0].1
    } else {
        dir_lookup_spec(dirs.drop_first(), name)
    }
}

/// Merges each requested language's directory, in caller order.
pub open spec fn merge_langs_spec(
    acc: Seq<(Seq<char>, JsonV)>,
    langs: Seq<Seq<char>>,
    dirs: Seq<(Seq<char>, Seq<(Seq<char>, Seq<char>)>)>,
) -> Result<Seq<(Seq<char>, JsonV)>, McpFailure>
    decreases langs.len(),
{
    if langs.len() == 0 {
        Ok(acc)
    } else {
        match merge_files_spec(acc, dir_lookup_spec(dirs, langs[0]), "mcp/"@ + langs[0] + "/"@) {
            Ok(acc2) => merge_langs_spec(acc2, langs.drop_first(), dirs),
            Err(f) => Err(f),
        }
    }
}

/// Merges each explicitly named definition file, in caller order; a missing
/// name fails the whole assembly.
pub open spec fn merge_named_spec(
    acc: Seq<(Seq<char>, JsonV)>,
    names: Seq<Seq<char>>,
    named_files: Seq<(Seq<char>, Seq<char>)>,
) -> Result<Seq<(Seq<char>, JsonV)>, McpFailure>
    decreases names.len(),
{
    if names.len() == 0 {
        Ok(acc)
    } else {
        match assoc_get_spec(named_files, names[0]) {
            None => Err(McpFailure::MissingName(names[0])),
            Some(text) => {
                match parse_obj_spec(text) {
                    Some(m) => merge_named_spec(
                        obj_extend_spec(acc, m),
                        names.drop_first(),
                        named_files,
                    ),
                    None => Err(McpFailure::BadFile("mcp/"@ + names[0] + ".json"@)),
                }
            },
        }
    }
}

/// The merged server entries of one invocation: defaults, then language
/// directories, then named files.
pub open spec fn assemble_servers_spec(
    langs: Seq<Seq<char>>,
    names: Seq<Seq<char>>,
    m: &McpDir,
) -> Result<Seq<(Seq<char>, JsonV)>, McpFailure> {
    match merge_files_spec(Seq::empty(), pairs_view(m.default_files@), "mcp/default/"@) {
        Ok(acc1) => match merge_langs_spec(acc1, langs, lang_dirs_view(m.lang_dirs@)) {
            Ok(acc2) => merge_named_spec(acc2, names, pairs_view(m.named_files@)),
            Err(f) => Err(f),
        },
        Err(f) => Err(f),
    }
}

/// The manifest document of a server entry list.
pub open spec fn mcp_doc_spec(servers: Seq<(Seq<char>, JsonV)>) -> JsonV {
    JsonV::Obj(seq![("mcpServers"@, JsonV::Obj(servers))])
}

fn path_concat2(a: &str, b: &str) -> (r: String)
    ensures
        r@ == a@ + b@,
{
    let mut p = String::new();
    p.append(a);
    p.append(b);
    p
}

fn path_concat3(a: &str, b: &str, c: &str) -> (r: String)
    ensures
        r@ == a@ + b@ + c@,
{
    let mut p = String::new();
    p.append(a);
    p.append(b);
    p.append(c);
    p
}

/// Merges one directory's pre-read files into the accumulator, as the
/// file-merge spec describes; an error carries the failing file's path,
/// the given prefix followed by the filename.
#[verifier::loop_isolation(false)]
fn merge_files(
    servers: &mut Vec<(String, Json)>,
    files: &Vec<(String, String)>,
    prefix: &str,
) -> (r: Result<(), Error>)
    ensures
        match r {
            Ok(()) => merge_files_spec(entries_view(old(servers)@), pairs_view(files@), prefix@)
                == Ok::<_, McpFailure>(entries_view(final(servers)@)),
            Err(e) => {
                &&& merge_files_spec(entries_view(old(servers)@), pairs_view(files@), prefix@)
                    matches Err(McpFailure::BadFile(p))
                &&& e matches Error::JsonParse { path } && merge_files_spec(
                    entries_view(old(servers)@),
                    pairs_view(files@),
                    prefix@,
                ) == Err::<Seq<(Seq<char>, JsonV)>, _>(McpFailure::BadFile(path@))
            },
        },
{
    let ghost fv = pairs_view(files@);
    let ghost acc0 = entries_view(old(servers)@);
    let mut i: usize = 0;
    proof {
        assert(fv.skip(0) =~= fv);
    }
    while i < files.len()
        invariant
            fv == pairs_view(files@),
            i <= files@.len(),
            merge_files_spec(entries_view(servers@), fv.skip(i as int), prefix@)
                == merge_files_spec(acc0, fv, prefix@),
        decreases files@.len() - i,
    {
        let ghost cur = entries_view(servers@);
        proof {
            assert(fv.skip(i as int)[0] == (files@[i as int].0@, files@[i as int].1@));
        }
        let parsed = parse_json(files[i].1.as_str());
        match parsed {
            Some(Json::Obj(entries)) => {
                proof {
                    assert(parse_obj_spec(fv.skip(i as int)[0].1) == Some(
                        entries_view(entries@),
                    )) by {
                        crate::json::lemma_jv_entries(entries@);
                    }
                }
                obj_extend(servers, entries);
                proof {
                    assert(fv.skip(i as int).drop_first() =~= fv.skip(i as int + 1));
                }
            },
            _ => {
                proof {
                    assert(parse_obj_spec(fv.skip(i as int)[0].1) is None) by {
                        if parsed is Some {
                            let j = parsed->0;
                            assert(!(j@ is Obj));
                        }
                    }
                }
                let path = path_concat2(prefix, files[i].0.as_str());
                proof {
                    assert(path@ =~= prefix@ + fv.skip(i as int)[0].0);
                    assert(merge_files_spec(entries_view(servers@), fv.skip(i as int), prefix@)
                        == Err::<Seq<(Seq<char>, JsonV)>, McpFailure>(
                        McpFailure::BadFile(path@),
                    ));
                    assert(merge_files_spec(acc0, fv, prefix@) == Err::<
                        Seq<(Seq<char>, JsonV)>,
                        McpFailure,
                    >(McpFailure::BadFile(path@)));
                }
                return Err(Error::JsonParse { path });
            },
        }
        i = i + 1;
    }
    proof {
        assert(fv.skip(fv.len() as int) =~= Seq::<(Seq<char>, Seq<char>)>::empty());
    }
    Ok(())
}

/// Assembles the server manifest: every file under the default directory,
/// then each requested language's directory in caller order, then each
/// explicitly named file in caller order, later sources overwriting earlier
/// ones name by name. Returns the manifest document and the merged server
/// names in mapping order. With no server directory at all the manifest is
/// empty, unless names were requested — then assembly fails; a named file
/// that does not exist fails it too, listing the names that do. An empty
/// mapping still yields a manifest document: the written file always
/// exists.
#[verifier::loop_isolation(false)]
pub fn assemble_mcp_json(
    languages: &Vec<String>,
    named_mcps: &Vec<String>,
    mcp: &Option<McpDir>,
) -> (r: Result<(Json, Vec<String>), Error>)
    ensures
        match mcp {
            None => match r {
                Ok((doc, names)) => named_mcps@.len() == 0 && doc@ == mcp_doc_spec(Seq::empty())
                    && names@.len() == 0,
                Err(e) => named_mcps@.len() > 0 && e is McpDirMissing,
            },
            Some(m) => match r {
                Ok((doc, names)) => {
                    &&& assemble_servers_spec(
                        languages.deep_view(),
                        named_mcps.deep_view(),
                        m,
                    ) matches Ok(servers)
                    &&& doc@ == mcp_doc_spec(servers)
                    &&& names.deep_view() == obj_keys(servers)
                },
                Err(e) => match assemble_servers_spec(
                    languages.deep_view(),
                    named_mcps.deep_view(),
                    m,
                ) {
                    Ok(_) => false,
                    Err(McpFailure::NoDir) => false,
                    Err(McpFailure::BadFile(p)) => e matches Error::JsonParse { path } && path@
                        == p,
                    Err(McpFailure::MissingName(n)) => e matches Error::McpNotFound {
                        name,
                        available,
                    } && name@ == n && available.deep_view() == file_names(
                        pairs_view(m.named_files@),
                    ),
                },
            },
        },
{
    let m = match mcp {
        None => {
            if named_mcps.len() > 0 {
                return Err(Error::McpDirMissing);
            }
            let servers: Vec<(String, Json)> = Vec::new();
            proof {
                assert(jv_entries(servers@) =~= Seq::<(Seq<char>, JsonV)>::empty());
            }
            let doc = singleton_obj("mcpServers", Json::Obj(servers));
            return Ok((doc, Vec::new()));
        },
        Some(m) => m,
    };
    let mut servers: Vec<(String, Json)> = Vec::new();
    proof {
        assert(entries_view(servers@) =~= Seq::<(Seq<char>, JsonV)>::empty());
    }
    match merge_files(&mut servers, &m.default_files, "mcp/default/") {
        Ok(()) => (),
        Err(e) => {
            return Err(e);
        },
    }
    let ghost acc1 = entries_view(servers@);
    let ghost dirs_v = lang_dirs_view(m.lang_dirs@);
    let ghost langs_v = languages.deep_view();
    let mut i: usize = 0;
    proof {
        assert(langs_v.skip(0) =~= langs_v);
    }
    while i < languages.len()
        invariant
            langs_v == languages.deep_view(),
            dirs_v == lang_dirs_view(m.lang_dirs@),
            i <= languages@.len(),
            merge_langs_spec(entries_view(servers@), langs_v.skip(i as int), dirs_v)
                == merge_langs_spec(acc1, langs_v, dirs_v),
        decreases languages@.len() - i,
    {
        let lang = &languages[i];
        let ghost cur = entries_view(servers@);
        let ghost prefix_v = "mcp/"@ + langs_v[i as int] + "/"@;
        let prefix = path_concat3("mcp/", lang.as_str(), "/");
        proof {
            assert(langs_v.skip(i as int)[0] == langs_v[i as int]);
            assert(langs_v[i as int] == languages@[i as int]@);
        }
        match dir_lookup(&m.lang_dirs, lang.as_str()) {
            Some(f) => {
                match merge_files(&mut servers, f, prefix.as_str()) {
                    Ok(()) => (),
                    Err(e) => {
                        proof {
                            assert(prefix@ == "mcp/"@ + langs_v[i as int] + "/"@);
                        }
                        return Err(e);
                    },
                }
            },
            None => {
                proof {
                    assert(merge_files_spec(cur, Seq::<(Seq<char>, Seq<char>)>::empty(), prefix_v)
                        == Ok::<_, McpFailure>(cur));
                }
            },
        }
        proof {
            assert(langs_v.skip(i as int).drop_first() =~= langs_v.skip(i as int + 1));
        }
        i = i + 1;
    }
    proof {
        assert(langs_v.skip(langs_v.len() as int) =~= Seq::<Seq<char>>::empty());
    }
    let ghost acc2 = entries_view(servers@);
    let ghost names_v = named_mcps.deep_view();
    let ghost named_files_v = pairs_view(m.named_files@);
    let mut i: usize = 0;
    proof {
        assert(names_v.skip(0) =~= names_v);
    }
    while i < named_mcps.len()
        invariant
            names_v == named_mcps.deep_view(),
            named_files_v == pairs_view(m.named_files@),
            i <= named_mcps@.len(),
            merge_named_spec(entries_view(servers@), names_v.skip(i as int), named_files_v)
                == merge_named_spec(acc2, names_v, named_files_v),
        decreases named_mcps@.len() - i,
    {
        let name = &named_mcps[i];
        let ghost cur = entries_view(servers@);
        proof {
            assert(names_v.skip(i as int)[0] == names_v[i as int]);
            assert(names_v[i as int] == named_mcps@[i as int]@);
        }
        match assoc_get(&m.named_files, name.as_str()) {
            None => {
                let available = stem_list(&m.named_files);
                return Err(Error::McpNotFound { name: name.clone(), available });
            },
            Some(text) => {
                let parsed = parse_json(text.as_str());
                match parsed {
                    Some(Json::Obj(entries)) => {
                        proof {
                            assert(parse_obj_spec(text@) == Some(entries_view(entries@))) by {
                                crate::json::lemma_jv_entries(entries@);
                            }
                        }
                        obj_extend(&mut servers, entries);
                    },
                    _ => {
                        proof {
                            assert(parse_obj_spec(text@) is None) by {
                                if parsed is Some {
                                    let j = parsed->0;
                                    assert(!(j@ is Obj));
                                }
                            }
                        }
                        let path = path_concat3("mcp/", name.as_str(), ".json");
                        return Err(Error::JsonParse { path });
                    },
                }
            },
        }
        proof {
            assert(names_v.skip(i as int).drop_first() =~= names_v.skip(i as int + 1));
        }
        i = i + 1;
    }
    proof {
        assert(names_v.skip(names_v.len() as int) =~= Seq::<Seq<char>>::empty());
    }
    let names = obj_key_list(&servers);
    let ghost servers_v = entries_view(servers@);
    proof {
        crate::json::lemma_jv_entries(servers@);
    }
    let doc = singleton_obj("mcpServers", Json::Obj(servers));
    Ok((doc, names))
}

/// Finds the file list of the directory with the given name; `None` also
/// when the directory is absent, in which case the lookup spec gives the
/// empty list.
#[verifier::loop_isolation(false)]
fn dir_lookup<'a>(dirs: &'a Vec<(String, Vec<(String, String)>)>, name: &str) -> (r: Option<
    &'a Vec<(String, String)>,
>)
    ensures
        match r {
            Some(f) => dir_lookup_spec(lang_dirs_view(dirs@), name@) == pairs_view(f@),
            None => dir_lookup_spec(lang_dirs_view(dirs@), name@) == Seq::<
                (Seq<char>, Seq<char>),
            >::empty(),
        },
{
    let ghost dv = lang_dirs_view(dirs@);
    let mut i: usize = 0;
    proof {
        assert(dv.skip(0) =~= dv);
    }
    while i < dirs.len()
        invariant
            dv == lang_dirs_view(dirs@),
            i <= dirs@.len(),
            dir_lookup_spec(dv.skip(i as int), name@) == dir_lookup_spec(dv, name@),
        decreases dirs@.len() - i,
    {
        proof {
            assert(dv.skip(i as int)[0] == dv[i as int]);
        }
        if crate::text::str_eq(dirs[i].0.as_str(), name) {
            return Some(&dirs[i].1);
        }
        proof {
            assert(dv.skip(i as int).drop_first() =~= dv.skip(i as int + 1));
        }
        i = i + 1;
    }
    proof {
        assert(dv.skip(dv.len() as int) =~= Seq::<(Seq<char>, Seq<(Seq<char>, Seq<char>)>)>::empty());
    }
    None
}

/// Copies out the names of a file table, in order.
#[verifier::loop_isolation(false)]
pub fn stem_list(files: &Vec<(String, String)>) -> (r: Vec<String>)
    ensures
        r.deep_view() == file_names(pairs_view(files@)),
{
    let mut out: Vec<String> = Vec::new();
    let mut i: usize = 0;
    while i < files.len()
        invariant
            i <= files@.len(),
            out.deep_view() =~= file_names(pairs_view(files@)).subrange(0, i as int),
        decreases files@.len() - i,
    {
        let ghost prev = out.deep_view();
        out.push(files[i].0.clone());
        proof {
            assert(out.deep_view() =~= prev.push(files@[i as int].0@));
        }
        i = i + 1;
    }
    proof {
        assert(file_names(pairs_view(files@)).subrange(0, files@.len() as int) =~= file_names(
            pairs_view(files@),
        ));
    }
    out
}

} // verus!
