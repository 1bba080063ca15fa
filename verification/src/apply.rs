//! The conflict-safe apply phase.
//!
//! Every artifact is staged against the fetched tree first; nothing
//! touches the working directory until the preflight check has seen the
//! full set of destination names and found no conflict — or had the
//! conflicts confirmed away. The machine below carries that rule: a
//! commit step can only be reached with an empty conflict set, and a
//! preflight that finds conflicts without the overwrite flag aborts at
//! once with every conflicting path enumerated.

use vstd::prelude::*;
use crate::clarg::clarg_entry_spec;
use crate::clarg::choose_clarg;
use crate::clarg::plan_clarg;
use crate::clarg::ClargPlan;
use crate::errors::Error;
use crate::json::obj_keys;
use crate::json::pretty_json;
use crate::json::pretty_text;
use crate::json::Json;
use crate::json::JsonV;
use crate::language::canonical_all_spec;
use crate::language::canonical_spec;
use crate::language::lang_active;
use crate::language::name_in;
use crate::language::resolve_all_languages;
use crate::language::TreeIndex;
use crate::mcp::assemble_mcp_json;
use crate::mcp::assemble_servers_spec;
use crate::mcp::file_names;
use crate::mcp::mcp_doc_spec;
use crate::mcp::McpDir;
use crate::mcp::McpFailure;
use crate::render::render_agent_md;
use crate::render::render_agent_md_spec;
use crate::settings::build_settings;
use crate::settings::build_settings_spec;
use crate::settings::opt_text_view;
use crate::settings::HooksDir;
use crate::settings::SettingsFailure;
use crate::text::pairs_view;

verus! {

/// Where one apply run stands.
pub enum ApplyState {
    /// Artifacts are still being staged; no working-directory writes yet.
    Staging,
    /// Conflicts were found and overwriting was requested: the run waits
    /// for confirmation.
    ConfirmRequired,
    /// The conflict set is empty (found empty, or cleared after
    /// confirmation): working-directory writes may proceed.
    Committing,
    /// The run was aborted; the working directory is untouched by it.
    Aborted,
    /// The writes are done.
    Done,
}

/// The fixed working-directory write steps, in the only order the commit
/// performs them.
#[derive(Debug, PartialEq, Eq, Structural)]
pub enum CommitStep {
    /// Append the template's ignore entries to `.gitignore`.
    AppendGitignore,
    /// Copy the staged top-level entries.
    CopyTopLevel,
    /// Copy the conditional `copied/` tree.
    CopyConditional,
}

/// One apply run: its state, whether overwriting was requested, and the
/// conflict set the preflight found.
pub struct ApplyPhase {
    pub state: ApplyState,
    pub force: bool,
    pub conflicts: Vec<String>,
}

impl ApplyPhase {
    /// The machine's invariant: commit is reachable only with an empty
    /// conflict set, and confirmation is only ever awaited under the
    /// overwrite flag with a non-empty one.
    pub open spec fn inv(&self) -> bool {
        &&& self.state is Committing ==> self.conflicts@.len() == 0
        &&& self.state is Staging ==> self.conflicts@.len() == 0
        &&& self.state is ConfirmRequired ==> self.force && self.conflicts@.len() > 0
        &&& self.state is Done ==> self.conflicts@.len() == 0
    }

    /// Starts a run in the staging state.
    pub fn new(force: bool) -> (r: ApplyPhase)
        ensures
            r.inv(),
            r.state is Staging,
            r.force == force,
            r.conflicts@.len() == 0,
    {
        ApplyPhase { state: ApplyState::Staging, force, conflicts: Vec::new() }
    }

    /// Takes the preflight's conflict set. An empty set opens the commit.
    /// A non-empty set without the overwrite flag aborts at once, the
    /// error enumerating every conflicting path; with the flag, the run
    /// waits for confirmation instead.
    pub fn preflight(&mut self, conflicts: Vec<String>) -> (r: Result<(), Error>)
        requires
            old(self).inv(),
            old(self).state is Staging,
        ensures
            final(self).inv(),
            final(self).force == old(self).force,
            if conflicts@.len() == 0 {
                &&& r is Ok
                &&& final(self).state is Committing
            } else if !old(self).force {
                &&& r matches Err(e) && e matches Error::Conflicts { paths } && paths@
                    == conflicts@
                &&& final(self).state is Aborted
            } else {
                &&& r is Ok
                &&& final(self).state is ConfirmRequired
                &&& final(self).conflicts@ == conflicts@
            },
    {
        if conflicts.len() == 0 {
            self.state = ApplyState::Committing;
            Ok(())
        } else if !self.force {
            self.state = ApplyState::Aborted;
            Err(Error::Conflicts { paths: conflicts })
        } else {
            self.state = ApplyState::ConfirmRequired;
            self.conflicts = conflicts;
            Ok(())
        }
    }

    /// Takes the confirmation answer. Acceptance hands back the paths to
    /// clear and opens the commit; a decline aborts exactly as the
    /// no-overwrite case does.
    pub fn resolve_confirmation(&mut self, accepted: bool) -> (r: Result<Vec<String>, Error>)
        requires
            old(self).inv(),
            old(self).state is ConfirmRequired,
        ensures
            final(self).inv(),
            final(self).force == old(self).force,
            match r {
                Ok(to_clear) => accepted && to_clear@ == old(self).conflicts@ && final(self).state
                    is Committing,
                Err(e) => !accepted && e is Aborted && final(self).state is Aborted,
            },
    {
        if accepted {
            let mut to_clear: Vec<String> = Vec::new();
            to_clear.append(&mut self.conflicts);
            self.state = ApplyState::Committing;
            proof {
                assert(to_clear@ =~= old(self).conflicts@);
            }
            Ok(to_clear)
        } else {
            self.state = ApplyState::Aborted;
            Err(Error::Aborted)
        }
    }

    /// Working-directory writes are allowed only while committing.
    pub fn can_commit(&self) -> (r: bool)
        ensures
            r == (self.state is Committing),
    {
        match self.state {
            ApplyState::Committing => true,
            _ => false,
        }
    }

    /// The write steps of the commit, in their fixed order.
    pub fn commit_plan(&self) -> (r: Vec<CommitStep>)
        requires
            self.state is Committing,
        ensures
            r@ == seq![
                CommitStep::AppendGitignore,
                CommitStep::CopyTopLevel,
                CommitStep::CopyConditional,
            ],
    {
        let mut plan: Vec<CommitStep> = Vec::new();
        plan.push(CommitStep::AppendGitignore);
        plan.push(CommitStep::CopyTopLevel);
        plan.push(CommitStep::CopyConditional);
        proof {
            assert(plan@ =~= seq![
                CommitStep::AppendGitignore,
                CommitStep::CopyTopLevel,
                CommitStep::CopyConditional,
            ]);
        }
        plan
    }

    /// Ends a finished commit.
    pub fn finish(&mut self)
        requires
            old(self).inv(),
            old(self).state is Committing,
        ensures
            final(self).inv(),
            final(self).state is Done,
    {
        self.state = ApplyState::Done;
    }
}

/// Conflict atomicity, the machine's half: in every phase that satisfies
/// the invariant, a commit step is possible only with an empty conflict
/// set — so a run that found conflicts and was not confirmed past them
/// never performs a working-directory write.
pub proof fn lemma_conflict_atomicity(p: &ApplyPhase)
    requires
        p.inv(),
    ensures
        p.state is Committing ==> p.conflicts@.len() == 0,
        p.state is Aborted || p.state is ConfirmRequired || p.state is Staging ==> !(p.state
            is Committing),
{
}

/// The fragment tree of one run, contents pre-read: the resolution index,
/// the rules and auxiliary fragments, the top-level template, the server
/// and hook definition files, the base settings text, and the guard
/// profile stems.
pub struct TemplateTree {
    pub index: TreeIndex,
    pub lang_rules: Vec<(String, String)>,
    pub mcp_rules: Vec<(String, String)>,
    pub misc: Vec<(String, String)>,
    pub template: String,
    pub mcp: Option<McpDir>,
    pub hooks: HooksDir,
    pub base_settings: Option<String>,
    pub clarg_stems: Option<Vec<String>>,
}

/// The staged artifacts of one run: everything the commit will write,
/// computed before any working-directory write.
#[derive(Debug)]
pub struct Staged {
    pub languages: Vec<String>,
    pub mcp_text: String,
    pub mcp_names: Vec<String>,
    pub agent_md: String,
    pub settings_text: String,
    pub clarg_copy: Option<(String, String)>,
}

/// The model of an optional stem list.
pub open spec fn opt_names_view(o: &Option<Vec<String>>) -> Option<Seq<Seq<char>>> {
    match o {
        None => None,
        Some(v) => Some(v.deep_view()),
    }
}

/// The guard profile one run enables: the explicitly requested one, else
/// `default` when offered, else none.
pub open spec fn clarg_choice_spec(
    explicit: Option<Seq<char>>,
    stems: Option<Seq<Seq<char>>>,
) -> Option<Seq<char>> {
    match explicit {
        Some(n) => Some(n),
        None => match stems {
            Some(list) => if list.contains("default"@) {
                Some("default"@)
            } else {
                None
            },
            None => None,
        },
    }
}

/// The profile stems a tree offers; an absent directory offers none.
pub open spec fn offered_stems(stems: Option<Seq<Seq<char>>>) -> Seq<Seq<char>> {
    match stems {
        Some(list) => list,
        None => Seq::empty(),
    }
}

/// The merged server entries of one run; with no server directory at all
/// the mapping is empty, unless names were requested.
pub open spec fn servers_spec(
    langs: Seq<Seq<char>>,
    reqs: Seq<Seq<char>>,
    mcp: &Option<McpDir>,
) -> Result<Seq<(Seq<char>, JsonV)>, McpFailure> {
    match mcp {
        None => if reqs.len() == 0 {
            Ok(Seq::empty())
        } else {
            Err(McpFailure::NoDir)
        },
        Some(m) => assemble_servers_spec(langs, reqs, m),
    }
}

/// The settings build of one run, over the already-fixed server names and
/// guard entries.
pub open spec fn stage_settings_spec(
    cli: &crate::cli::Cli,
    tree: &TemplateTree,
    names: Seq<Seq<char>>,
    clarg_vals: Seq<JsonV>,
) -> Result<JsonV, SettingsFailure> {
    build_settings_spec(
        opt_text_view(&tree.base_settings),
        pairs_view(tree.hooks.default_files@),
        cli.hooks.deep_view(),
        pairs_view(tree.hooks.named_files@),
        clarg_vals,
        names,
    )
}

/// The rendering of one run, over the already-fixed server names.
pub open spec fn stage_render_spec(
    cli: &crate::cli::Cli,
    tree: &TemplateTree,
    names: Seq<Seq<char>>,
) -> Result<Seq<char>, Seq<char>> {
    render_agent_md_spec(
        canonical_all_spec(cli.languages.deep_view()),
        names,
        tree.template@,
        pairs_view(tree.lang_rules@),
        pairs_view(tree.mcp_rules@),
        pairs_view(tree.misc@),
    )
}

/// A settings failure carries exactly this error.
pub open spec fn settings_error_matches(
    cli: &crate::cli::Cli,
    tree: &TemplateTree,
    names: Seq<Seq<char>>,
    clarg_vals: Seq<JsonV>,
    e: &Error,
) -> bool {
    match stage_settings_spec(cli, tree, names, clarg_vals) {
        Ok(_) => false,
        Err(SettingsFailure::BadBase) => e matches Error::JsonParse { path } && path@
            == "settings.local.json"@,
        Err(SettingsFailure::BaseNotObject) => e matches Error::NotAnObject { path } && path@
            == "settings.local.json"@,
        Err(SettingsFailure::BadFile(p)) => e matches Error::JsonParse { path } && path@ == p,
        Err(SettingsFailure::FileNotObject(p)) => e matches Error::NotAnObject { path } && path@
            == p,
        Err(SettingsFailure::NotArray(k, p)) => e matches Error::NotAnArray { key, path } && key@
            == k && path@ == p,
        Err(SettingsFailure::MissingHook(n)) => e matches Error::HookNotFound { name, available }
            && name@ == n && available.deep_view() == file_names(
            pairs_view(tree.hooks.named_files@),
        ),
    }
}

/// A failed staging run returns exactly the first failing stage's error:
/// language resolution, server assembly, rendering, guard planning, and
/// settings building fail in that order.
pub open spec fn stage_error_matches(
    cli: &crate::cli::Cli,
    tree: &TemplateTree,
    e: &Error,
) -> bool {
    let inputs = cli.languages.deep_view();
    if exists|i: int|
        0 <= i < inputs.len() && !lang_active(&tree.index, canonical_spec(#[trigger] inputs[i])) {
        exists|i: int|
            {
                &&& 0 <= i < inputs.len()
                &&& !lang_active(&tree.index, canonical_spec(#[trigger] inputs[i]))
                &&& forall|j: int|
                    0 <= j < i ==> lang_active(&tree.index, canonical_spec(#[trigger] inputs[j]))
                &&& e matches Error::UnknownLanguage { input, canonical } && input@ == inputs[i]
                    && canonical@ == canonical_spec(inputs[i])
            }
    } else {
        let langs = canonical_all_spec(inputs);
        match servers_spec(langs, cli.mcp.deep_view(), &tree.mcp) {
            Err(McpFailure::NoDir) => e is McpDirMissing,
            Err(McpFailure::BadFile(p)) => e matches Error::JsonParse { path } && path@ == p,
            Err(McpFailure::MissingName(n)) => e matches Error::McpNotFound { name, available }
                && name@ == n && (tree.mcp matches Some(m) && available.deep_view() == file_names(
                pairs_view(m.named_files@),
            )),
            Ok(servers) => {
                let names = obj_keys(servers);
                match stage_render_spec(cli, tree, names) {
                    Err(f) => e matches Error::RenderFailed { name } && name@ == f,
                    Ok(_) => {
                        let offered = offered_stems(opt_names_view(&tree.clarg_stems));
                        match clarg_choice_spec(
                            opt_text_view(&cli.clarg),
                            opt_names_view(&tree.clarg_stems),
                        ) {
                            Some(n) => if !offered.contains(n) {
                                e matches Error::ClargNotFound { name, available } && name@ == n
                                    && available.deep_view() == offered
                            } else {
                                settings_error_matches(
                                    cli,
                                    tree,
                                    names,
                                    seq![clarg_entry_spec(n)],
                                    e,
                                )
                            },
                            None => settings_error_matches(cli, tree, names, Seq::empty(), e),
                        }
                    },
                }
            },
        }
    }
}

/// A successful staging run pins every artifact: the canonical languages,
/// the manifest text and the server names, the rendered document, the
/// settings text, and the guard copy plan.
pub open spec fn stage_ok_matches(cli: &crate::cli::Cli, tree: &TemplateTree, st: &Staged) -> bool {
    let inputs = cli.languages.deep_view();
    let langs = canonical_all_spec(inputs);
    &&& forall|i: int|
        0 <= i < inputs.len() ==> lang_active(&tree.index, canonical_spec(#[trigger] inputs[i]))
    &&& st.languages.deep_view() == langs
    &&& servers_spec(langs, cli.mcp.deep_view(), &tree.mcp) matches Ok(servers) && {
        let names = obj_keys(servers);
        &&& st.mcp_names.deep_view() == names
        &&& st.mcp_text@ == pretty_json(mcp_doc_spec(servers))
        &&& stage_render_spec(cli, tree, names) == Ok::<_, Seq<char>>(st.agent_md@)
        &&& match clarg_choice_spec(
            opt_text_view(&cli.clarg),
            opt_names_view(&tree.clarg_stems),
        ) {
            None => st.clarg_copy is None && (stage_settings_spec(cli, tree, names, Seq::empty())
                matches Ok(doc) && st.settings_text@ == pretty_json(doc)),
            Some(n) => {
                &&& name_in(offered_stems(opt_names_view(&tree.clarg_stems)), n)
                &&& st.clarg_copy matches Some((src, dst)) && src@ == n + ".yaml"@ && dst@
                    == "clarg-"@ + n + ".yaml"@
                &&& stage_settings_spec(cli, tree, names, seq![clarg_entry_spec(n)]) matches Ok(
                    doc,
                ) && st.settings_text@ == pretty_json(doc)
            },
        }
    }
}

/// Merge determinism: every staged artifact is a function of the fragment
/// tree and the selection alone, so two successful runs over the same
/// inputs stage byte-identical texts — the same canonical languages, the
/// same manifest, the same rendered document, and the same settings.
pub proof fn lemma_staging_deterministic(
    cli: &crate::cli::Cli,
    tree: &TemplateTree,
    a: &Staged,
    b: &Staged,
)
    requires
        stage_ok_matches(cli, tree, a),
        stage_ok_matches(cli, tree, b),
    ensures
        a.languages.deep_view() == b.languages.deep_view(),
        a.mcp_names.deep_view() == b.mcp_names.deep_view(),
        a.mcp_text@ == b.mcp_text@,
        a.agent_md@ == b.agent_md@,
        a.settings_text@ == b.settings_text@,
{
}

/// Stages one run: resolves the languages, assembles the server manifest,
/// renders the document, plans the guard profile, and builds the settings
/// document — all against the pre-read tree, writing nothing. The first
/// failing stage's error comes back unchanged.
pub fn stage(cli: &crate::cli::Cli, tree: &TemplateTree) -> (r: Result<Staged, Error>)
    ensures
        match r {
            Ok(st) => stage_ok_matches(cli, tree, &st),
            Err(e) => stage_error_matches(cli, tree, &e),
        },
{
    let resolved_languages = match resolve_all_languages(&cli.languages, &tree.index) {
        Ok(l) => l,
        Err(e) => {
            return Err(e);
        },
    };
    let (mcp_doc, mcp_names) = match assemble_mcp_json(&resolved_languages, &cli.mcp, &tree.mcp) {
        Ok(p) => p,
        Err(e) => {
            return Err(e);
        },
    };
    let ghost servers = (match servers_spec(
        canonical_all_spec(cli.languages.deep_view()),
        cli.mcp.deep_view(),
        &tree.mcp,
    ) {
        Ok(s) => s,
        Err(_) => Seq::empty(),
    });
    proof {
        if tree.mcp is None {
            assert(obj_keys(servers) =~= Seq::<Seq<char>>::empty());
            assert(mcp_names.deep_view() =~= obj_keys(servers));
        }
    }
    let mcp_text = pretty_text(mcp_doc);
    let agent_md = match render_agent_md(
        &resolved_languages,
        &mcp_names,
        tree.template.as_str(),
        &tree.lang_rules,
        &tree.mcp_rules,
        &tree.misc,
    ) {
        Ok(out) => out,
        Err(e) => {
            return Err(e);
        },
    };
    let clarg_name = choose_clarg(&cli.clarg, &tree.clarg_stems);
    let mut clarg_entries: Vec<Json> = Vec::new();
    let mut clarg_copy: Option<(String, String)> = None;
    match &clarg_name {
        Some(name) => {
            let plan = match plan_clarg(name.as_str(), &tree.clarg_stems) {
                Ok(p) => p,
                Err(e) => {
                    return Err(e);
                },
            };
            let ClargPlan { source_name, dest_name, entry } = plan;
            let ghost ev = entry@;
            clarg_entries.push(entry);
            proof {
                assert(crate::json::values_view(clarg_entries@) =~= seq![ev]);
            }
            clarg_copy = Some((source_name, dest_name));
        },
        None => {
            proof {
                assert(crate::json::values_view(clarg_entries@) =~= Seq::<JsonV>::empty());
            }
        },
    }
    let settings_doc = match build_settings(
        &tree.base_settings,
        &tree.hooks,
        &cli.hooks,
        clarg_entries,
        &mcp_names,
    ) {
        Ok(doc) => doc,
        Err(e) => {
            return Err(e);
        },
    };
    let settings_text = pretty_text(settings_doc);
    Ok(
        Staged {
            languages: resolved_languages,
            mcp_text,
            mcp_names,
            agent_md,
            settings_text,
            clarg_copy,
        },
    )
}

} // verus!
