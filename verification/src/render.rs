//! Rendering of the top-level document from its template.
//!
//! The render context holds two presence maps (`lang` and `mcp`, each
//! canonical name mapped to true), the two aggregated rules texts, and one
//! variable per auxiliary fragment. An auxiliary fragment's variable name
//! is its filename without the template and content suffixes, separators
//! folded to underscores; a fragment that is itself a template is expanded
//! against the presence maps alone before being wrapped.

use vstd::prelude::*;
use vstd::string::StringExecFns;
use crate::errors::Error;
use crate::rules::rules_text_spec;
use crate::rules::build_language_rules;
use crate::rules::build_mcp_rules;
use crate::rules::wrap_block;
use crate::rules::wrap_block_spec;
use crate::text::contains_seq;
use crate::text::contains_sub;
use crate::text::ends_with_spec;
use crate::text::pairs_view;
use crate::text::push_char;
use crate::text::strip_suffix_str;
use crate::text::trim_spec;

verus! {

/// The double-quoted conditional pattern of a language.
pub open spec fn conditional_pattern_dq(lang: Seq<char>) -> Seq<char> {
    "\""@ + lang + "\" in languages"@
}

/// The single-quoted conditional pattern of a language.
pub open spec fn conditional_pattern_sq(lang: Seq<char>) -> Seq<char> {
    "'"@ + lang + "' in languages"@
}

/// The template tests the language's membership in the language list,
/// with either quoting.
pub open spec fn template_has_conditional_spec(t: Seq<char>, lang: Seq<char>) -> bool {
    contains_seq(t, conditional_pattern_dq(lang)) || contains_seq(t, conditional_pattern_sq(lang))
}

/// Decides whether the template has a conditional section for the
/// language: an occurrence of `"<lang>" in languages`, in double or single
/// quotes.
pub fn template_has_conditional(template_content: &str, lang: &str) -> (r: bool)
    ensures
        r == template_has_conditional_spec(template_content@, lang@),
{
    let mut dq = String::new();
    dq.append("\"");
    dq.append(lang);
    dq.append("\" in languages");
    let mut sq = String::new();
    sq.append("'");
    sq.append(lang);
    sq.append("' in languages");
    contains_sub(template_content, dq.as_str()) || contains_sub(template_content, sq.as_str())
}

/// The rendering of a template against the context: the presence maps, and
/// the named text variables.
pub uninterp spec fn rendered(
    tmpl: Seq<char>,
    langs: Seq<Seq<char>>,
    mcps: Seq<Seq<char>>,
    vars: Seq<(Seq<char>, Seq<char>)>,
) -> Option<Seq<char>>;

/// Relies on minijinja's Environment::render_str: with the default
/// environment, rendering is a function of the template text and the
/// context alone; `None` is a template parse or render failure. The
/// context maps `lang` and `mcp` to presence maps of the given names, and
/// each variable name to its text.
#[verifier::external_body]
fn render_template(
    tmpl: &str,
    langs: &Vec<String>,
    mcps: &Vec<String>,
    vars: &Vec<(String, String)>,
) -> (r: Option<String>)
    ensures
        match r {
            Some(out) => rendered(tmpl@, langs.deep_view(), mcps.deep_view(), pairs_view(vars@))
                == Some(out@),
            None => rendered(tmpl@, langs.deep_view(), mcps.deep_view(), pairs_view(vars@))
                is None,
        },
{
    let mut ctx: std::collections::BTreeMap<String, minijinja::Value> =
        std::collections::BTreeMap::new();
    let lang_map: std::collections::BTreeMap<&str, bool> =
        langs.iter().map(|l| (l.as_str(), true)).collect();
    let mcp_map: std::collections::BTreeMap<&str, bool> =
        mcps.iter().map(|m| (m.as_str(), true)).collect();
    ctx.insert(String::from("lang"), minijinja::Value::from_serialize(&lang_map));
    ctx.insert(String::from("mcp"), minijinja::Value::from_serialize(&mcp_map));
    for (k, v) in vars {
        ctx.insert(k.clone(), minijinja::Value::from_serialize(v));
    }
    minijinja::Environment::new().render_str(tmpl, ctx).ok()
}

/// A name with separators folded: every `-` becomes `_`.
pub open spec fn underscore_spec(s: Seq<char>) -> Seq<char> {
    s.map_values(
        |c: char|
            if c == '-' {
                '_'
            } else {
                c
            },
    )
}

/// Folds separators of a name: every `-` becomes `_`.
pub fn underscore_name(s: &str) -> (r: String)
    ensures
        r@ == underscore_spec(s@),
{
    let n = s.unicode_len();
    let mut out = String::new();
    let mut i: usize = 0;
    while i < n
        invariant
            n == s@.len(),
            i <= n,
            out@ =~= underscore_spec(s@).subrange(0, i as int),
        decreases n - i,
    {
        let c = s.get_char(i);
        if c == '-' {
            push_char(&mut out, '_');
        } else {
            push_char(&mut out, c);
        }
        i = i + 1;
        proof {
            assert(out@ =~= underscore_spec(s@).subrange(0, i as int));
        }
    }
    proof {
        assert(underscore_spec(s@).subrange(0, n as int) =~= underscore_spec(s@));
    }
    out
}

/// A name without the given suffix, when it ends with it.
pub open spec fn strip_sfx_spec(s: Seq<char>, suffix: Seq<char>) -> Seq<char> {
    if ends_with_spec(s, suffix) {
        s.subrange(0, s.len() - suffix.len())
    } else {
        s
    }
}

/// The fragment filename carries the template suffix.
pub open spec fn is_template_name(f: Seq<char>) -> bool {
    ends_with_spec(f, ".jinja"@)
}

/// The tag of an auxiliary fragment: its filename without the template
/// suffix, then without the content suffix.
pub open spec fn tag_of(f: Seq<char>) -> Seq<char> {
    strip_sfx_spec(strip_sfx_spec(f, ".jinja"@), ".md"@)
}

fn strip_or_keep(s: &str, suffix: &str) -> (r: String)
    ensures
        r@ == strip_sfx_spec(s@, suffix@),
{
    match strip_suffix_str(s, suffix) {
        Some(t) => t,
        None => s.to_owned(),
    }
}

/// The context variables contributed by the auxiliary fragments, in file
/// order: each maps its underscore-folded tag to its wrapped (and, for a
/// template fragment, first expanded) trimmed text; a fragment that fails
/// to expand fails the whole pass with its filename.
pub open spec fn misc_vars_spec(
    files: Seq<(Seq<char>, Seq<char>)>,
    langs: Seq<Seq<char>>,
    mcps: Seq<Seq<char>>,
) -> Result<Seq<(Seq<char>, Seq<char>)>, Seq<char>>
    decreases files.len(),
{
    if files.len() == 0 {
        Ok(Seq::empty())
    } else {
        let fname = files[0].0;
        let tag = tag_of(fname);
        let body = if is_template_name(fname) {
            rendered(files[0].1, langs, mcps, Seq::empty())
        } else {
            Some(files[0].1)
        };
        match body {
            None => Err(fname),
            Some(text) => match misc_vars_spec(files.drop_first(), langs, mcps) {
                Err(f) => Err(f),
                Ok(vs) => Ok(
                    seq![(underscore_spec(tag), wrap_block_spec(tag, trim_spec(text)))] + vs,
                ),
            },
        }
    }
}

/// The whole rendering: the auxiliary variables, then the main template
/// against the full context — the presence maps, `lang_rules`,
/// `mcp_rules`, and the auxiliary variables; a failure carries the name of
/// what did not render.
pub open spec fn render_agent_md_spec(
    langs: Seq<Seq<char>>,
    mcps: Seq<Seq<char>>,
    tmpl: Seq<char>,
    lang_rules: Seq<(Seq<char>, Seq<char>)>,
    mcp_rules: Seq<(Seq<char>, Seq<char>)>,
    misc: Seq<(Seq<char>, Seq<char>)>,
) -> Result<Seq<char>, Seq<char>> {
    match misc_vars_spec(misc, langs, mcps) {
        Err(f) => Err(f),
        Ok(mv) => {
            let vars = seq![
                ("lang_rules"@, rules_text_spec(langs, lang_rules, "-rules"@)),
                ("mcp_rules"@, rules_text_spec(mcps, mcp_rules, "-mcp-rules"@)),
            ] + mv;
            match rendered(tmpl, langs, mcps, vars) {
                None => Err("AGENT.md.jinja"@),
                Some(out) => Ok(out),
            }
        },
    }
}

/// Renders the top-level document from the template text, the canonical
/// languages, the active server names, the two rules-fragment tables, and
/// the auxiliary fragments (sorted by filename). A fragment or template
/// that fails to expand fails the whole rendering, naming it.
#[verifier::loop_isolation(false)]
pub fn render_agent_md(
    languages: &Vec<String>,
    active_mcp_names: &Vec<String>,
    template: &str,
    lang_rules_files: &Vec<(String, String)>,
    mcp_rules_files: &Vec<(String, String)>,
    misc_files: &Vec<(String, String)>,
) -> (r: Result<String, Error>)
    ensures
        ({
            let s = render_agent_md_spec(
                languages.deep_view(),
                active_mcp_names.deep_view(),
                template@,
                pairs_view(lang_rules_files@),
                pairs_view(mcp_rules_files@),
                pairs_view(misc_files@),
            );
            match r {
                Ok(out) => s == Ok::<_, Seq<char>>(out@),
                Err(e) => s matches Err(f) && e matches Error::RenderFailed { name } && name@ == f,
            }
        }),
{
    let ghost langs_v = languages.deep_view();
    let ghost mcps_v = active_mcp_names.deep_view();
    let ghost misc_v = pairs_view(misc_files@);
    let lang_rules = build_language_rules(languages, lang_rules_files);
    let mcp_rules = build_mcp_rules(active_mcp_names, mcp_rules_files);
    let empty_vars: Vec<(String, String)> = Vec::new();
    proof {
        assert(pairs_view(empty_vars@) =~= Seq::<(Seq<char>, Seq<char>)>::empty());
    }
    let mut mvars: Vec<(String, String)> = Vec::new();
    let mut i: usize = 0;
    proof {
        assert(misc_v.skip(0) =~= misc_v);
        assert(pairs_view(mvars@) =~= Seq::<(Seq<char>, Seq<char>)>::empty());
        assert(Seq::<(Seq<char>, Seq<char>)>::empty() + (match misc_vars_spec(
            misc_v,
            langs_v,
            mcps_v,
        ) {
            Ok(vs) => vs,
            Err(_) => Seq::empty(),
        }) =~= (match misc_vars_spec(misc_v, langs_v, mcps_v) {
            Ok(vs) => vs,
            Err(_) => Seq::empty(),
        }));
    }
    while i < misc_files.len()
        invariant
            i <= misc_files@.len(),
            match misc_vars_spec(misc_v.skip(i as int), langs_v, mcps_v) {
                Ok(vs) => misc_vars_spec(misc_v, langs_v, mcps_v) == Ok::<_, Seq<char>>(
                    pairs_view(mvars@) + vs,
                ),
                Err(f) => misc_vars_spec(misc_v, langs_v, mcps_v) == Err::<
                    Seq<(Seq<char>, Seq<char>)>,
                    _,
                >(f),
            },
        decreases misc_files@.len() - i,
    {
        let fname = &misc_files[i].0;
        let content = &misc_files[i].1;
        proof {
            assert(misc_v.skip(i as int)[0] == (misc_files@[i as int].0@, misc_files@[i as int].1@));
        }
        let stripped = strip_suffix_str(fname.as_str(), ".jinja");
        let (tag, body): (String, String) = match stripped {
            Some(base) => {
                let tag = strip_or_keep(base.as_str(), ".md");
                match render_template(content.as_str(), languages, active_mcp_names, &empty_vars) {
                    Some(out) => (tag, out),
                    None => {
                        return Err(Error::RenderFailed { name: fname.clone() });
                    },
                }
            },
            None => {
                let tag = strip_or_keep(fname.as_str(), ".md");
                proof {
                    assert(strip_sfx_spec(fname@, ".jinja"@) == fname@);
                }
                (tag, content.clone())
            },
        };
        let var = underscore_name(tag.as_str());
        let wrapped = wrap_block(tag.as_str(), body.as_str());
        let ghost prev = pairs_view(mvars@);
        mvars.push((var, wrapped));
        proof {
            assert(pairs_view(mvars@) =~= prev.push(
                (underscore_spec(tag_of(misc_v[i as int].0)), wrap_block_spec(
                    tag_of(misc_v[i as int].0),
                    trim_spec(body@),
                )),
            ));
            assert(misc_v.skip(i as int).drop_first() =~= misc_v.skip(i as int + 1));
            match misc_vars_spec(misc_v.skip(i as int + 1), langs_v, mcps_v) {
                Ok(vs) => {
                    assert(prev + (seq![
                        (underscore_spec(tag_of(misc_v[i as int].0)), wrap_block_spec(
                            tag_of(misc_v[i as int].0),
                            trim_spec(body@),
                        )),
                    ] + vs) =~= pairs_view(mvars@) + vs);
                },
                Err(_) => {
                },
            }
        }
        i = i + 1;
    }
    proof {
        assert(misc_v.skip(misc_v.len() as int) =~= Seq::<(Seq<char>, Seq<char>)>::empty());
        assert(pairs_view(mvars@) + Seq::<(Seq<char>, Seq<char>)>::empty() =~= pairs_view(mvars@));
    }
    let mut vars: Vec<(String, String)> = Vec::new();
    vars.push((String::from_str("lang_rules"), lang_rules));
    vars.push((String::from_str("mcp_rules"), mcp_rules));
    let ghost head = pairs_view(vars@);
    proof {
        assert(head =~= seq![
            ("lang_rules"@, rules_text_spec(langs_v, pairs_view(lang_rules_files@), "-rules"@)),
            ("mcp_rules"@, rules_text_spec(mcps_v, pairs_view(mcp_rules_files@), "-mcp-rules"@)),
        ]);
    }
    let ghost mv = pairs_view(mvars@);
    let mut mvars = mvars;
    vars.append(&mut mvars);
    proof {
        assert(pairs_view(vars@) =~= head + mv);
    }
    match render_template(template, languages, active_mcp_names, &vars) {
        Some(out) => Ok(out),
        None => Err(Error::RenderFailed { name: String::from_str("AGENT.md.jinja") }),
    }
}

} // verus!
