//! Rule blocks: named, delimited text units, and their aggregation.
//!
//! A block wraps a fragment's trimmed content between `<tag>` and `</tag>`
//! delimiters. The aggregators walk the caller's name list in order and
//! join the blocks of the names that have a fragment with a blank line;
//! names without one are skipped silently.

use vstd::prelude::*;
use vstd::string::StringExecFns;
use crate::text::assoc_get;
use crate::text::assoc_get_spec;
use crate::text::contains_seq;
use crate::text::find_sub;
use crate::text::is_match_at;
use crate::text::join_spec;
use crate::text::join_strings;
use crate::text::pairs_view;
use crate::text::trim_spec;
use crate::text::trim_str;

verus! {

/// The text of a block: the tag line, the content, and the closing tag
/// line.
pub open spec fn wrap_block_spec(tag: Seq<char>, content: Seq<char>) -> Seq<char> {
    "<"@ + tag + ">\n"@ + content + "\n</"@ + tag + ">"@
}

/// Builds the block of a fragment: its content is trimmed, then wrapped
/// between the tag delimiters.
pub fn wrap_block(tag: &str, content: &str) -> (r: String)
    ensures
        r@ == wrap_block_spec(tag@, trim_spec(content@)),
{
    let t = trim_str(content);
    let mut out = String::new();
    out.append("<");
    out.append(tag);
    out.append(">\n");
    out.append(t.as_str());
    out.append("\n</");
    out.append(tag);
    out.append(">");
    out
}

/// The blocks of the names that have a fragment, in name-list order: each
/// is the fragment's trimmed content wrapped under the tag `<name><suffix>`.
pub open spec fn sections_spec(
    names: Seq<Seq<char>>,
    frags: Seq<(Seq<char>, Seq<char>)>,
    suffix: Seq<char>,
) -> Seq<Seq<char>>
    decreases names.len(),
{
    if names.len() == 0 {
        Seq::empty()
    } else {
        let rest = sections_spec(names.drop_first(), frags, suffix);
        match assoc_get_spec(frags, names[0]) {
            Some(content) => seq![wrap_block_spec(names[0] + suffix, trim_spec(content))] + rest,
            None => rest,
        }
    }
}

proof fn lemma_sections_take(
    names: Seq<Seq<char>>,
    frags: Seq<(Seq<char>, Seq<char>)>,
    suffix: Seq<char>,
    i: int,
)
    requires
        0 <= i < names.len(),
    ensures
        sections_spec(names.take(i + 1), frags, suffix) == sections_spec(names.take(i), frags, suffix)
            + match assoc_get_spec(frags, names[i]) {
            Some(content) => seq![wrap_block_spec(names[i] + suffix, trim_spec(content))],
            None => Seq::<Seq<char>>::empty(),
        },
    decreases i,
{
    if i == 0 {
        assert(names.take(1)[0] == names[0]);
        assert(names.take(1).drop_first() =~= Seq::<Seq<char>>::empty());
        assert(names.take(0) =~= Seq::<Seq<char>>::empty());
        match assoc_get_spec(frags, names[0]) {
            Some(content) => {
                assert(seq![wrap_block_spec(names[0] + suffix, trim_spec(content))]
                    + Seq::<Seq<char>>::empty() =~= seq![
                    wrap_block_spec(names[0] + suffix, trim_spec(content)),
                ]);
                assert(sections_spec(names.take(0), frags, suffix) + seq![
                    wrap_block_spec(names[0] + suffix, trim_spec(content)),
                ] =~= seq![wrap_block_spec(names[0] + suffix, trim_spec(content))]);
            },
            None => {
                assert(sections_spec(names.take(0), frags, suffix)
                    + Seq::<Seq<char>>::empty() =~= Seq::<Seq<char>>::empty());
            },
        }
    } else {
        lemma_sections_take(names.drop_first(), frags, suffix, i - 1);
        assert(names.take(i + 1)[0] == names[0]);
        assert(names.take(i)[0] == names[0]);
        assert(names.take(i + 1).drop_first() =~= names.drop_first().take(i));
        assert(names.take(i).drop_first() =~= names.drop_first().take(i - 1));
        assert(names.drop_first()[i - 1] == names[i]);
        match assoc_get_spec(frags, names[0]) {
            Some(c0) => {
                let head = seq![wrap_block_spec(names[0] + suffix, trim_spec(c0))];
                match assoc_get_spec(frags, names[i]) {
                    Some(content) => {
                        assert(head + (sections_spec(names.drop_first().take(i - 1), frags, suffix)
                            + seq![wrap_block_spec(names[i] + suffix, trim_spec(content))]) =~= (
                        head + sections_spec(names.drop_first().take(i - 1), frags, suffix))
                            + seq![wrap_block_spec(names[i] + suffix, trim_spec(content))]);
                    },
                    None => {
                        assert(sections_spec(names.take(i), frags, suffix)
                            + Seq::<Seq<char>>::empty() =~= sections_spec(
                            names.take(i),
                            frags,
                            suffix,
                        ));
                    },
                }
            },
            None => {
                match assoc_get_spec(frags, names[i]) {
                    Some(content) => {
                    },
                    None => {
                        assert(sections_spec(names.take(i), frags, suffix)
                            + Seq::<Seq<char>>::empty() =~= sections_spec(
                            names.take(i),
                            frags,
                            suffix,
                        ));
                    },
                }
            },
        }
    }
}

/// Builds the blocks of every name that has a fragment, under the tag
/// `<name><suffix>`, in name-list order.
fn build_sections(names: &Vec<String>, frags: &Vec<(String, String)>, suffix: &str) -> (r: Vec<
    String,
>)
    ensures
        r.deep_view() == sections_spec(names.deep_view(), pairs_view(frags@), suffix@),
{
    let ghost nv = names.deep_view();
    let mut out: Vec<String> = Vec::new();
    let mut i: usize = 0;
    proof {
        assert(nv.take(0) =~= Seq::<Seq<char>>::empty());
        assert(out.deep_view() =~= Seq::<Seq<char>>::empty());
    }
    while i < names.len()
        invariant
            nv == names.deep_view(),
            i <= names@.len(),
            out.deep_view() == sections_spec(nv.take(i as int), pairs_view(frags@), suffix@),
        decreases names@.len() - i,
    {
        let ghost prev = out.deep_view();
        match assoc_get(frags, names[i].as_str()) {
            Some(content) => {
                let mut tag = String::new();
                tag.append(names[i].as_str());
                tag.append(suffix);
                let block = wrap_block(tag.as_str(), content.as_str());
                out.push(block);
                proof {
                    assert(out.deep_view() =~= prev.push(
                        wrap_block_spec(nv[i as int] + suffix@, trim_spec(content@)),
                    ));
                }
            },
            None => {
            },
        }
        proof {
            lemma_sections_take(nv, pairs_view(frags@), suffix@, i as int);
            match assoc_get_spec(pairs_view(frags@), nv[i as int]) {
                Some(c) => {
                    assert(prev.push(wrap_block_spec(nv[i as int] + suffix@, trim_spec(c))) =~= prev
                        + seq![wrap_block_spec(nv[i as int] + suffix@, trim_spec(c))]);
                },
                None => {
                    assert(prev + Seq::<Seq<char>>::empty() =~= prev);
                },
            }
        }
        i = i + 1;
    }
    proof {
        assert(nv.take(nv.len() as int) =~= nv);
    }
    out
}

/// The aggregated rules text of a name list: the blocks that
/// `sections_spec` describes, joined with a blank line.
pub open spec fn rules_text_spec(
    names: Seq<Seq<char>>,
    frags: Seq<(Seq<char>, Seq<char>)>,
    suffix: Seq<char>,
) -> Seq<char> {
    join_spec(sections_spec(names, frags, suffix), "\n\n"@)
}

/// Concatenates the rule blocks of the given canonical languages, in order,
/// joined with a blank line. `lang_rules` maps each rules-file stem to its
/// content; languages without a rules file contribute nothing. The block
/// tag of a language is `<language>-rules`.
pub fn build_language_rules(languages: &Vec<String>, lang_rules: &Vec<(String, String)>) -> (r:
    String)
    ensures
        r@ == rules_text_spec(languages.deep_view(), pairs_view(lang_rules@), "-rules"@),
{
    let sections = build_sections(languages, lang_rules, "-rules");
    join_strings(&sections, "\n\n")
}

/// Concatenates the rule blocks of the given server names, in order, joined
/// with a blank line. `mcp_rules` maps each rules-file stem to its content;
/// names without a rules file contribute nothing — most servers have none.
/// The block tag of a server is `<name>-mcp-rules`.
pub fn build_mcp_rules(active_mcps: &Vec<String>, mcp_rules: &Vec<(String, String)>) -> (r: String)
    ensures
        r@ == rules_text_spec(active_mcps.deep_view(), pairs_view(mcp_rules@), "-mcp-rules"@),
{
    let sections = build_sections(active_mcps, mcp_rules, "-mcp-rules");
    join_strings(&sections, "\n\n")
}

/// Index of the first occurrence of the needle in the haystack, if any.
pub open spec fn first_match_spec(hay: Seq<char>, needle: Seq<char>) -> Option<int>
    decreases hay.len(),
{
    if is_match_at(hay, needle, 0) {
        Some(0)
    } else if hay.len() == 0 {
        None
    } else {
        match first_match_spec(hay.drop_first(), needle) {
            Some(i) => Some(i + 1),
            None => None,
        }
    }
}

proof fn lemma_match_shift(hay: Seq<char>, needle: Seq<char>, i: int)
    requires
        hay.len() > 0,
        i >= 0,
    ensures
        is_match_at(hay, needle, i + 1) == is_match_at(hay.drop_first(), needle, i),
{
    if i + 1 + needle.len() <= hay.len() {
        assert(hay.subrange(i + 1, i + 1 + needle.len() as int) =~= hay.drop_first().subrange(
            i,
            i + needle.len() as int,
        ));
    }
}

proof fn lemma_first_match_unique(hay: Seq<char>, needle: Seq<char>, i: int)
    requires
        is_match_at(hay, needle, i),
        forall|j: int| 0 <= j < i ==> !is_match_at(hay, needle, j),
    ensures
        first_match_spec(hay, needle) == Some(i),
    decreases i,
{
    if i > 0 {
        assert(hay.len() > 0);
        assert forall|j: int| 0 <= j < i - 1 implies !is_match_at(hay.drop_first(), needle, j) by {
            lemma_match_shift(hay, needle, j);
        }
        lemma_match_shift(hay, needle, i - 1);
        lemma_first_match_unique(hay.drop_first(), needle, i - 1);
    }
}

proof fn lemma_first_match_none(hay: Seq<char>, needle: Seq<char>)
    requires
        !contains_seq(hay, needle),
    ensures
        first_match_spec(hay, needle) is None,
    decreases hay.len(),
{
    if hay.len() > 0 {
        assert(!contains_seq(hay.drop_first(), needle)) by {
            if contains_seq(hay.drop_first(), needle) {
                let j = choose|j: int| is_match_at(hay.drop_first(), needle, j);
                lemma_match_shift(hay, needle, j);
                assert(is_match_at(hay, needle, j + 1));
            }
        }
        lemma_first_match_none(hay.drop_first(), needle);
    }
}

/// The opening delimiter of a block.
pub open spec fn block_open(tag: Seq<char>) -> Seq<char> {
    "<"@ + tag + ">\n"@
}

/// The closing delimiter of a block.
pub open spec fn block_close(tag: Seq<char>) -> Seq<char> {
    "\n</"@ + tag + ">"@
}

/// What extraction finds: the text between the first opening delimiter and
/// the first closing delimiter after it, or `None` when either is missing.
pub open spec fn extract_block_spec(text: Seq<char>, tag: Seq<char>) -> Option<Seq<char>> {
    match first_match_spec(text, block_open(tag)) {
        None => None,
        Some(i) => {
            let rest = text.skip(i + block_open(tag).len());
            match first_match_spec(rest, block_close(tag)) {
                None => None,
                Some(j) => Some(rest.take(j)),
            }
        },
    }
}

/// Extracts the text between the two delimiters of the given tag, as the
/// extraction spec describes.
pub fn extract_block(text: &str, tag: &str) -> (r: Option<String>)
    ensures
        match r {
            Some(t) => extract_block_spec(text@, tag@) == Some(t@),
            None => extract_block_spec(text@, tag@) is None,
        },
{
    let mut open = String::new();
    open.append("<");
    open.append(tag);
    open.append(">\n");
    let mut close = String::new();
    close.append("\n</");
    close.append(tag);
    close.append(">");
    proof {
        assert(open@ == block_open(tag@));
        assert(close@ == block_close(tag@));
    }
    match find_sub(text, open.as_str()) {
        None => {
            proof {
                lemma_first_match_none(text@, block_open(tag@));
            }
            None
        },
        Some(i) => {
            proof {
                lemma_first_match_unique(text@, block_open(tag@), i as int);
            }
            let n = text.unicode_len();
            let olen = open.unicode_len();
            let rest = text.substring_char(i + olen, n);
            proof {
                assert(rest@ =~= text@.skip(i + olen));
            }
            match find_sub(rest, close.as_str()) {
                None => {
                    proof {
                        lemma_first_match_none(rest@, block_close(tag@));
                    }
                    None
                },
                Some(j) => {
                    proof {
                        lemma_first_match_unique(rest@, block_close(tag@), j as int);
                    }
                    let piece = rest.substring_char(0, j);
                    proof {
                        assert(piece@ =~= rest@.take(j as int));
                    }
                    Some(piece.to_owned())
                },
            }
        },
    }
}

proof fn lemma_close_shape(tag: Seq<char>)
    ensures
        block_close(tag).len() == tag.len() + 4,
        block_close(tag)[0] == '\n',
        block_close(tag)[1] == '<',
        block_close(tag)[2] == '/',
        block_close(tag)[block_close(tag).len() - 1] == '>',
        forall|k: int| 3 <= k < 3 + tag.len() ==> block_close(tag)[k] == tag[k - 3],
{
    reveal_strlit("\n</");
    reveal_strlit(">");
}

proof fn lemma_no_close_match(tag: Seq<char>, t: Seq<char>, p: int)
    requires
        forall|k: int| 0 <= k < tag.len() ==> tag[k] != '>',
        !contains_seq(t, tag),
        0 <= p < t.len(),
    ensures
        !is_match_at(t + block_close(tag), block_close(tag), p),
{
    lemma_close_shape(tag);
    let close = block_close(tag);
    let u = t + close;
    if is_match_at(u, close, p) {
        assert forall|k: int| 0 <= k < close.len() implies u[p + k] == close[k] by {
            assert(u.subrange(p, p + close.len() as int)[k] == u[p + k]);
        }
        if p + close.len() <= t.len() {
            assert(is_match_at(t, tag, p + 3)) by {
                assert forall|k: int|
                    0 <= k < tag.len() implies t.subrange(p + 3, p + 3 + tag.len() as int)[k]
                    == tag[k] by {
                    assert(u[p + 3 + k] == close[3 + k]);
                    assert(close[3 + k] == tag[k]);
                    assert(u[p + 3 + k] == t[p + 3 + k]);
                }
                assert(t.subrange(p + 3, p + 3 + tag.len() as int) =~= tag);
            }
            assert(contains_seq(t, tag));
        } else {
            let ell = p + close.len() - t.len();
            assert(1 <= ell < close.len());
            assert(u[p + close.len() - 1] == close[close.len() - 1]);
            assert(u[p + close.len() - 1] == close[ell - 1]) by {
                assert(p + close.len() - 1 >= t.len());
            }
            assert(close[ell - 1] == '>');
            if 3 <= ell - 1 < 3 + tag.len() {
                assert(tag[ell - 1 - 3] == '>');
            }
        }
    }
}

/// Wrapping then extracting between the two delimiters of a tag recovers
/// the trimmed content exactly, for any tag without `>` and any content in
/// which the tag string does not occur.
pub proof fn lemma_block_round_trip(tag: Seq<char>, content: Seq<char>)
    requires
        forall|k: int| 0 <= k < tag.len() ==> tag[k] != '>',
        !contains_seq(trim_spec(content), tag),
    ensures
        extract_block_spec(wrap_block_spec(tag, trim_spec(content)), tag) == Some(
            trim_spec(content),
        ),
{
    let t = trim_spec(content);
    let open = block_open(tag);
    let close = block_close(tag);
    let w = wrap_block_spec(tag, t);
    let u = t + close;
    assert(w =~= open + u);
    assert(is_match_at(w, open, 0)) by {
        assert(w.subrange(0, open.len() as int) =~= open);
    }
    assert(first_match_spec(w, open) == Some(0int));
    assert(w.skip(open.len() as int) =~= u);
    assert(is_match_at(u, close, t.len() as int)) by {
        assert(u.subrange(t.len() as int, u.len() as int) =~= close);
    }
    assert forall|p: int| 0 <= p < t.len() implies !is_match_at(u, close, p) by {
        lemma_no_close_match(tag, t, p);
    }
    lemma_first_match_unique(u, close, t.len() as int);
    assert(u.take(t.len() as int) =~= t);
}

} // verus!
