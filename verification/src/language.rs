//! Language token handling: alias normalization and resolution against the
//! fragment tree.
//!
//! Alias matching is ASCII-case-insensitive: tokens are folded with
//! [`crate::text::lower_seq`] before the fixed alias table is consulted, and
//! an unrecognised token falls back to its ASCII-lowercased form verbatim.

use vstd::prelude::*;
use crate::errors::Error;
use crate::text::ascii_lower;
use crate::text::lower_seq;
use crate::text::str_eq;

verus! {

/// The canonical identifier an alias maps to, or `None` when the (folded)
/// token is not in the alias table.
pub open spec fn normalize_spec(s: Seq<char>) -> Option<Seq<char>> {
    let l = lower_seq(s);
    if l == "ts"@ || l == "typescript"@ {
        Some("typescript"@)
    } else if l == "js"@ || l == "javascript"@ {
        Some("javascript"@)
    } else if l == "rs"@ || l == "rust"@ {
        Some("rust"@)
    } else if l == "py"@ || l == "python"@ {
        Some("python"@)
    } else if l == "swift"@ {
        Some("swift"@)
    } else if l == "cs"@ || l == "csharp"@ || l == "c#"@ {
        Some("csharp"@)
    } else if l == "cpp"@ || l == "cplusplus"@ || l == "c++"@ {
        Some("cplusplus"@)
    } else if l == "html"@ {
        Some("html"@)
    } else if l == "svelte"@ {
        Some("svelte"@)
    } else if l == "go"@ || l == "golang"@ {
        Some("go"@)
    } else if l == "java"@ {
        Some("java"@)
    } else if l == "rb"@ || l == "ruby"@ {
        Some("ruby"@)
    } else {
        None
    }
}

/// The canonical identifier of any token: the alias table's entry when there
/// is one, otherwise the ASCII-lowercased token itself.
pub open spec fn canonical_spec(s: Seq<char>) -> Seq<char> {
    match normalize_spec(s) {
        Some(c) => c,
        None => lower_seq(s),
    }
}

/// Maps a language token to its canonical identifier through the fixed alias
/// table, case-insensitively; unknown tokens give `None`.
pub fn normalize_language(input: &str) -> (r: Option<&'static str>)
    ensures
        match r {
            Some(c) => normalize_spec(input@) == Some(c@),
            None => normalize_spec(input@) is None,
        },
{
    let l = ascii_lower(input);
    let s = l.as_str();
    if str_eq(s, "ts") || str_eq(s, "typescript") {
        Some("typescript")
    } else if str_eq(s, "js") || str_eq(s, "javascript") {
        Some("javascript")
    } else if str_eq(s, "rs") || str_eq(s, "rust") {
        Some("rust")
    } else if str_eq(s, "py") || str_eq(s, "python") {
        Some("python")
    } else if str_eq(s, "swift") {
        Some("swift")
    } else if str_eq(s, "cs") || str_eq(s, "csharp") || str_eq(s, "c#") {
        Some("csharp")
    } else if str_eq(s, "cpp") || str_eq(s, "cplusplus") || str_eq(s, "c++") {
        Some("cplusplus")
    } else if str_eq(s, "html") {
        Some("html")
    } else if str_eq(s, "svelte") {
        Some("svelte")
    } else if str_eq(s, "go") || str_eq(s, "golang") {
        Some("go")
    } else if str_eq(s, "java") {
        Some("java")
    } else if str_eq(s, "rb") || str_eq(s, "ruby") {
        Some("ruby")
    } else {
        None
    }
}

/// Builds the canonical identifier of a token, falling back to the
/// ASCII-lowercased token when the alias table has no entry.
pub fn canonical_language(input: &str) -> (r: String)
    ensures
        r@ == canonical_spec(input@),
{
    match normalize_language(input) {
        Some(c) => c.to_owned(),
        None => ascii_lower(input),
    }
}

proof fn lemma_lower_fixed(s: Seq<char>)
    requires
        forall|i: int| 0 <= i < s.len() ==> lower_seq(s)[i] == s[i],
    ensures
        lower_seq(s) == s,
{
    assert(lower_seq(s) =~= s);
}

/// Normalization is case-insensitive: folding the token first changes
/// nothing.
pub proof fn lemma_normalize_case_insensitive(s: Seq<char>)
    ensures
        normalize_spec(lower_seq(s)) == normalize_spec(s),
        canonical_spec(lower_seq(s)) == canonical_spec(s),
{
    crate::text::lemma_lower_seq_idempotent(s);
}

proof fn lemma_neq_at(a: Seq<char>, b: Seq<char>, i: int)
    requires
        0 <= i < a.len(),
        i < b.len(),
        a[i] != b[i],
    ensures
        a != b,
{
    if a == b {
        assert(a[i] == b[i]);
    }
}

#[verifier::rlimit(100)]
proof fn lemma_canonical_names_fixed()
    ensures
        forall|s: Seq<char>| #[trigger] normalize_spec(s) is Some ==> normalize_spec(
            normalize_spec(s)->0,
        ) == Some(normalize_spec(s)->0),
{
    reveal_strlit("ts");
    reveal_strlit("typescript");
    reveal_strlit("js");
    reveal_strlit("javascript");
    reveal_strlit("rs");
    reveal_strlit("rust");
    reveal_strlit("py");
    reveal_strlit("python");
    reveal_strlit("swift");
    reveal_strlit("cs");
    reveal_strlit("csharp");
    reveal_strlit("c#");
    reveal_strlit("cpp");
    reveal_strlit("cplusplus");
    reveal_strlit("c++");
    reveal_strlit("html");
    reveal_strlit("svelte");
    reveal_strlit("go");
    reveal_strlit("golang");
    reveal_strlit("java");
    reveal_strlit("rb");
    reveal_strlit("ruby");
    assert(lower_seq("typescript"@) =~= "typescript"@);
    assert(lower_seq("javascript"@) =~= "javascript"@);
    assert(lower_seq("rust"@) =~= "rust"@);
    assert(lower_seq("python"@) =~= "python"@);
    assert(lower_seq("swift"@) =~= "swift"@);
    assert(lower_seq("csharp"@) =~= "csharp"@);
    assert(lower_seq("cplusplus"@) =~= "cplusplus"@);
    assert(lower_seq("html"@) =~= "html"@);
    assert(lower_seq("svelte"@) =~= "svelte"@);
    assert(lower_seq("go"@) =~= "go"@);
    assert(lower_seq("java"@) =~= "java"@);
    assert(lower_seq("ruby"@) =~= "ruby"@);
    lemma_neq_at("javascript"@, "typescript"@, 0);
    lemma_neq_at("csharp"@, "python"@, 0);
    lemma_neq_at("html"@, "rust"@, 0);
    lemma_neq_at("svelte"@, "python"@, 0);
    lemma_neq_at("svelte"@, "csharp"@, 0);
    lemma_neq_at("go"@, "ts"@, 0);
    lemma_neq_at("go"@, "js"@, 0);
    lemma_neq_at("go"@, "rs"@, 0);
    lemma_neq_at("go"@, "py"@, 0);
    lemma_neq_at("go"@, "cs"@, 0);
    lemma_neq_at("go"@, "c#"@, 0);
    lemma_neq_at("java"@, "rust"@, 0);
    lemma_neq_at("java"@, "html"@, 0);
    lemma_neq_at("ruby"@, "rust"@, 2);
    lemma_neq_at("ruby"@, "html"@, 0);
    lemma_neq_at("ruby"@, "java"@, 0);
    assert forall|s: Seq<char>| #[trigger] normalize_spec(s) is Some implies normalize_spec(
        normalize_spec(s)->0,
    ) == Some(normalize_spec(s)->0) by {
        let l = lower_seq(s);
        let c = normalize_spec(s)->0;
        if l == "ts"@ || l == "typescript"@ {
            assert(c == "typescript"@);
            assert(normalize_spec(c) == Some(c));
        } else if l == "js"@ || l == "javascript"@ {
            assert(c == "javascript"@);
            assert(normalize_spec(c) == Some(c));
        } else if l == "rs"@ || l == "rust"@ {
            assert(c == "rust"@);
            assert(normalize_spec(c) == Some(c));
        } else if l == "py"@ || l == "python"@ {
            assert(c == "python"@);
            assert(normalize_spec(c) == Some(c));
        } else if l == "swift"@ {
            assert(c == "swift"@);
            assert(normalize_spec(c) == Some(c));
        } else if l == "cs"@ || l == "csharp"@ || l == "c#"@ {
            assert(c == "csharp"@);
            assert(normalize_spec(c) == Some(c));
        } else if l == "cpp"@ || l == "cplusplus"@ || l == "c++"@ {
            assert(c == "cplusplus"@);
            assert(normalize_spec(c) == Some(c));
        } else if l == "html"@ {
            assert(c == "html"@);
            assert(normalize_spec(c) == Some(c));
        } else if l == "svelte"@ {
            assert(c == "svelte"@);
            assert(normalize_spec(c) == Some(c));
        } else if l == "go"@ || l == "golang"@ {
            assert(c == "go"@);
            assert(normalize_spec(c) == Some(c));
        } else if l == "java"@ {
            assert(c == "java"@);
            assert(normalize_spec(c) == Some(c));
        } else {
            assert(c == "ruby"@);
            assert(normalize_spec(c) == Some(c));
        }
    }
}

/// Normalization is idempotent: a canonical identifier is a fixed point of
/// taking the canonical form. (Totality holds by construction: both the
/// alias lookup and the canonical form are defined for every token.)
pub proof fn lemma_normalize_idempotent(s: Seq<char>)
    ensures
        canonical_spec(canonical_spec(s)) == canonical_spec(s),
{
    lemma_canonical_names_fixed();
    match normalize_spec(s) {
        Some(c) => {
        },
        None => {
            lemma_normalize_case_insensitive(s);
            crate::text::lemma_lower_seq_idempotent(s);
        },
    }
}

/// What the fragment tree offers for resolving language tokens: the stems of
/// the per-language rules files, and the names of the per-language
/// subdirectories found under the conditional directories (`commands`,
/// `skills`, `copied`, `mcp`).
pub struct TreeIndex {
    pub rule_stems: Vec<String>,
    pub conditional_subdirs: Vec<String>,
}

/// The three resolution states of a language token.
pub enum LanguageResolution {
    /// The canonical language has a rules file: it contributes rules text
    /// and is active.
    HasRulesFile(String),
    /// No rules file, but at least one conditional directory exists for the
    /// canonical language: active, but contributes no rules text.
    ConditionalOnly(String),
    /// Neither exists.
    NoMatch,
}

/// A sequence of names contains the given name.
pub open spec fn name_in(names: Seq<Seq<char>>, name: Seq<char>) -> bool {
    names.contains(name)
}

/// Linear membership test of a name in a list of names.
pub fn contains_name(names: &Vec<String>, name: &str) -> (r: bool)
    ensures
        r == name_in(names.deep_view(), name@),
{
    let mut i: usize = 0;
    while i < names.len()
        invariant
            i <= names@.len(),
            forall|j: int| 0 <= j < i ==> names.deep_view()[j] != name@,
        decreases names@.len() - i,
    {
        if str_eq(names[i].as_str(), name) {
            proof {
                assert(names.deep_view()[i as int] == name@);
            }
            return true;
        }
        i = i + 1;
    }
    proof {
        assert(!name_in(names.deep_view(), name@)) by {
            if name_in(names.deep_view(), name@) {
                let j = choose|j: int|
                    0 <= j < names.deep_view().len() && names.deep_view()[j] == name@;
                assert(names.deep_view()[j] != name@);
            }
        }
    }
    false
}

/// The canonical language is active in the tree: a rules file or a
/// conditional subdirectory exists for it.
pub open spec fn lang_active(tree: &TreeIndex, c: Seq<char>) -> bool {
    name_in(tree.rule_stems.deep_view(), c) || name_in(tree.conditional_subdirs.deep_view(), c)
}

/// Resolves one token against the tree, classifying it into exactly one of
/// the three resolution states; the carried identifier is always the token's
/// canonical form.
pub fn resolve_language(input: &str, tree: &TreeIndex) -> (r: LanguageResolution)
    ensures
        match r {
            LanguageResolution::HasRulesFile(c) => c@ == canonical_spec(input@) && name_in(
                tree.rule_stems.deep_view(),
                c@,
            ),
            LanguageResolution::ConditionalOnly(c) => c@ == canonical_spec(input@) && !name_in(
                tree.rule_stems.deep_view(),
                c@,
            ) && name_in(tree.conditional_subdirs.deep_view(), c@),
            LanguageResolution::NoMatch => !lang_active(tree, canonical_spec(input@)),
        },
{
    let canonical = canonical_language(input);
    if contains_name(&tree.rule_stems, canonical.as_str()) {
        LanguageResolution::HasRulesFile(canonical)
    } else if contains_name(&tree.conditional_subdirs, canonical.as_str()) {
        LanguageResolution::ConditionalOnly(canonical)
    } else {
        LanguageResolution::NoMatch
    }
}

/// The canonical forms of all tokens, in input order, duplicates kept.
pub open spec fn canonical_all_spec(inputs: Seq<Seq<char>>) -> Seq<Seq<char>> {
    inputs.map_values(|s: Seq<char>| canonical_spec(s))
}

/// Resolves every token in order, failing fast on the first token that is
/// active in no way; on success the canonical forms come back in input
/// order, duplicates kept.
pub fn resolve_all_languages(inputs: &Vec<String>, tree: &TreeIndex) -> (r: Result<
    Vec<String>,
    Error,
>)
    ensures
        match r {
            Ok(out) => {
                &&& out.deep_view() == canonical_all_spec(inputs.deep_view())
                &&& forall|i: int|
                    0 <= i < inputs.deep_view().len() ==> lang_active(
                        tree,
                        canonical_spec(inputs.deep_view()[i]),
                    )
            },
            Err(e) => exists|i: int|
                {
                    &&& 0 <= i < inputs.deep_view().len()
                    &&& !lang_active(tree, canonical_spec(inputs.deep_view()[i]))
                    &&& forall|j: int|
                        0 <= j < i ==> lang_active(tree, canonical_spec(inputs.deep_view()[j]))
                    &&& e matches Error::UnknownLanguage { input, canonical } && input@
                        == inputs.deep_view()[i] && canonical@ == canonical_spec(
                        inputs.deep_view()[i],
                    )
                },
        },
{
    let mut out: Vec<String> = Vec::new();
    let mut i: usize = 0;
    while i < inputs.len()
        invariant
            i <= inputs@.len(),
            out.deep_view() =~= canonical_all_spec(inputs.deep_view()).subrange(0, i as int),
            forall|j: int|
                0 <= j < i ==> lang_active(tree, canonical_spec(inputs.deep_view()[j])),
        decreases inputs@.len() - i,
    {
        let ghost prev = out.deep_view();
        match resolve_language(inputs[i].as_str(), tree) {
            LanguageResolution::HasRulesFile(c) => {
                proof {
                    assert(c@ == canonical_spec(inputs.deep_view()[i as int]));
                }
                out.push(c);
            },
            LanguageResolution::ConditionalOnly(c) => {
                proof {
                    assert(c@ == canonical_spec(inputs.deep_view()[i as int]));
                }
                out.push(c);
            },
            LanguageResolution::NoMatch => {
                let ghost gi = i as int;
                let input = inputs[i].clone();
                let canonical = canonical_language(inputs[i].as_str());
                proof {
                    assert(!lang_active(tree, canonical_spec(inputs.deep_view()[gi])));
                }
                return Err(Error::UnknownLanguage { input, canonical });
            },
        }
        i = i + 1;
        proof {
            assert(out.deep_view() =~= prev.push(canonical_spec(inputs.deep_view()[i - 1])));
            assert(canonical_all_spec(inputs.deep_view())[i - 1] == canonical_spec(
                inputs.deep_view()[i - 1],
            ));
            assert(out.deep_view() =~= canonical_all_spec(inputs.deep_view()).subrange(
                0,
                i as int,
            ));
        }
    }
    proof {
        assert(canonical_all_spec(inputs.deep_view()).subrange(
            0,
            inputs.deep_view().len() as int,
        ) =~= canonical_all_spec(inputs.deep_view()));
    }
    Ok(out)
}

} // verus!

