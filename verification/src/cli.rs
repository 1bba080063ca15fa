//! Invocation data and the pure parts of command-line and prompt handling.
//!
//! Argument and prompt I/O live outside the library; these types carry the
//! parsed selection into the assembly engine, and the helpers here give the
//! exact meaning of multi-value splitting and of a confirmation answer.

use vstd::prelude::*;
use crate::text::lower_seq;
use crate::text::split_whitespace_words;
use crate::text::split_ws_spec;
use crate::text::trim_spec;
use crate::text::trim_str;
use crate::text::str_eq;

verus! {

/// One invocation's selection: language tokens, extra hook names, extra
/// server names, an optional guard profile, and whether existing files may
/// be overwritten.
pub struct Cli {
    pub languages: Vec<String>,
    pub hooks: Vec<String>,
    pub mcp: Vec<String>,
    pub clarg: Option<String>,
    pub force: bool,
}

/// The persisted preference: the template repository's URL, once known.
pub struct Config {
    pub gh_repo: Option<String>,
}

impl Default for Config {
    /// An empty preference: no repository URL stored yet.
    fn default() -> (r: Config)
        ensures
            r.gh_repo is None,
    {
        Config { gh_repo: None }
    }
}

/// Every whitespace-separated word of every value, flattened in order.
pub open spec fn split_multi_spec(vs: Seq<Seq<char>>) -> Seq<Seq<char>>
    decreases vs.len(),
{
    if vs.len() == 0 {
        Seq::empty()
    } else {
        split_ws_spec(vs[0]) + split_multi_spec(vs.drop_first())
    }
}

proof fn lemma_split_multi_push(vs: Seq<Seq<char>>, x: Seq<char>)
    ensures
        split_multi_spec(vs.push(x)) == split_multi_spec(vs) + split_ws_spec(x),
    decreases vs.len(),
{
    if vs.len() == 0 {
        assert(vs.push(x)[0] == x);
        assert(vs.push(x).drop_first() =~= Seq::<Seq<char>>::empty());
        assert(split_multi_spec(Seq::<Seq<char>>::empty()) =~= Seq::<Seq<char>>::empty());
        assert(split_multi_spec(vs) + split_ws_spec(x) =~= split_ws_spec(x));
        assert(split_ws_spec(x) + Seq::<Seq<char>>::empty() =~= split_ws_spec(x));
    } else {
        lemma_split_multi_push(vs.drop_first(), x);
        assert(vs.push(x).drop_first() =~= vs.drop_first().push(x));
        assert(vs.push(x)[0] == vs[0]);
        assert(split_ws_spec(vs[0]) + (split_multi_spec(vs.drop_first()) + split_ws_spec(x)) =~= (
        split_ws_spec(vs[0]) + split_multi_spec(vs.drop_first())) + split_ws_spec(x));
    }
}

/// Splits every value on whitespace in addition to the comma splitting the
/// argument parser already did, flattening the words in order.
pub fn split_multi_values(values: Vec<String>) -> (r: Vec<String>)
    ensures
        r.deep_view() == split_multi_spec(values.deep_view()),
{
    let mut out: Vec<String> = Vec::new();
    let mut i: usize = 0;
    proof {
        assert(values.deep_view().subrange(0, 0) =~= Seq::<Seq<char>>::empty());
        assert(out.deep_view() =~= Seq::<Seq<char>>::empty());
    }
    while i < values.len()
        invariant
            i <= values@.len(),
            out.deep_view() == split_multi_spec(values.deep_view().subrange(0, i as int)),
        decreases values@.len() - i,
    {
        let ghost prev = out.deep_view();
        let mut words = split_whitespace_words(values[i].as_str());
        let ghost w = words.deep_view();
        out.append(&mut words);
        proof {
            assert(out.deep_view() =~= prev + w);
            lemma_split_multi_push(values.deep_view().subrange(0, i as int), values.deep_view()[i as int]);
            assert(values.deep_view().subrange(0, i as int).push(values.deep_view()[i as int])
                =~= values.deep_view().subrange(0, i as int + 1));
        }
        i = i + 1;
    }
    proof {
        assert(values.deep_view().subrange(0, values.deep_view().len() as int)
            =~= values.deep_view());
    }
    out
}

/// The trimmed, ASCII-lowercased answer is one of the yes tokens.
pub open spec fn is_yes_spec(s: Seq<char>) -> bool {
    lower_seq(trim_spec(s)) == "y"@ || lower_seq(trim_spec(s)) == "yes"@
}

/// Decides whether a prompt answer means yes: `y` or `yes`, case-insensitive,
/// surrounding whitespace ignored; anything else is no.
pub fn parse_confirmation(answer: &str) -> (r: bool)
    ensures
        r == is_yes_spec(answer@),
{
    let t = trim_str(answer);
    let l = crate::text::ascii_lower(t.as_str());
    str_eq(l.as_str(), "y") || str_eq(l.as_str(), "yes")
}

} // verus!
