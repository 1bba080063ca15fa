//! Merging template-provided ignore entries into a `.gitignore` text.
//!
//! The merge only ever appends: existing lines are never rewritten. Each
//! addition line is trimmed; empty lines and lines already present (after
//! trimming) are dropped. When anything is left to add, a comment
//! separator precedes the appended entries; when nothing is, the file is
//! left untouched.

use vstd::prelude::*;
use vstd::string::StringExecFns;
use crate::text::ends_with_str;
use crate::text::split_lines;
use crate::text::split_lines_spec;
use crate::text::trim_spec;
use crate::text::trim_str;

verus! {

/// The trimmed lines of a text.
pub open spec fn trimmed_lines(s: Seq<char>) -> Seq<Seq<char>> {
    split_lines_spec(s).map_values(|l: Seq<char>| trim_spec(l))
}

/// The addition lines that will be appended: trimmed, non-empty, and not
/// already among the existing trimmed lines; duplicates within the
/// additions are kept.
pub open spec fn new_entries_spec(adds: Seq<Seq<char>>, existing: Seq<Seq<char>>) -> Seq<Seq<char>>
    decreases adds.len(),
{
    if adds.len() == 0 {
        Seq::empty()
    } else {
        let rest = new_entries_spec(adds.drop_first(), existing);
        if adds[0].len() > 0 && !existing.contains(adds[0]) {
            seq![adds[0]] + rest
        } else {
            rest
        }
    }
}

/// The appended tail: each entry on its own line.
pub open spec fn entries_block(entries: Seq<Seq<char>>) -> Seq<char>
    decreases entries.len(),
{
    if entries.len() == 0 {
        Seq::empty()
    } else {
        entries[0] + "\n"@ + entries_block(entries.drop_first())
    }
}

/// The merged text: `None` when nothing is to be appended; otherwise the
/// existing text (given a trailing line break if it lacked one), a blank
/// line, the comment separator, and the new entries.
pub open spec fn merge_gitignore_spec(existing: Option<Seq<char>>, additions: Seq<char>) -> Option<
    Seq<char>,
> {
    let ex = match existing {
        None => Seq::<char>::empty(),
        Some(t) => t,
    };
    let entries = new_entries_spec(trimmed_lines(additions), trimmed_lines(ex));
    if entries.len() == 0 {
        None
    } else {
        let base = if ex.len() > 0 && ex[ex.len() - 1] == '\n' {
            ex
        } else {
            ex.push('\n')
        };
        Some(base + "\n# Agent related\n"@ + entries_block(entries))
    }
}

proof fn lemma_entries_block_take(entries: Seq<Seq<char>>, i: int)
    requires
        0 <= i < entries.len(),
    ensures
        entries_block(entries.take(i + 1)) == entries_block(entries.take(i)) + entries[i] + "\n"@,
    decreases i,
{
    if i == 0 {
        assert(entries.take(1)[0] == entries[0]);
        assert(entries.take(1).drop_first() =~= Seq::<Seq<char>>::empty());
        assert(entries.take(0) =~= Seq::<Seq<char>>::empty());
        assert(entries_block(entries.take(1)) =~= entries[0] + "\n"@);
        assert(entries_block(entries.take(0)) + entries[0] + "\n"@ =~= entries[0] + "\n"@);
    } else {
        lemma_entries_block_take(entries.drop_first(), i - 1);
        assert(entries.take(i + 1)[0] == entries[0]);
        assert(entries.take(i)[0] == entries[0]);
        assert(entries.take(i + 1).drop_first() =~= entries.drop_first().take(i));
        assert(entries.take(i).drop_first() =~= entries.drop_first().take(i - 1));
        assert(entries.drop_first()[i - 1] == entries[i]);
        assert(entries[0] + "\n"@ + (entries_block(entries.drop_first().take(i - 1)) + entries[i]
            + "\n"@) =~= (entries[0] + "\n"@ + entries_block(entries.drop_first().take(i - 1)))
            + entries[i] + "\n"@);
    }
}

/// Trims every line of the list.
#[verifier::loop_isolation(false)]
fn trim_all(lines: &Vec<String>) -> (r: Vec<String>)
    ensures
        r.deep_view() == lines.deep_view().map_values(|l: Seq<char>| trim_spec(l)),
{
    let mut out: Vec<String> = Vec::new();
    let mut i: usize = 0;
    while i < lines.len()
        invariant
            i <= lines@.len(),
            out.deep_view() =~= lines.deep_view().map_values(|l: Seq<char>| trim_spec(l)).take(
                i as int,
            ),
        decreases lines@.len() - i,
    {
        let ghost prev = out.deep_view();
        out.push(trim_str(lines[i].as_str()));
        proof {
            assert(out.deep_view() =~= prev.push(trim_spec(lines.deep_view()[i as int])));
        }
        i = i + 1;
    }
    proof {
        assert(lines.deep_view().map_values(|l: Seq<char>| trim_spec(l)).take(
            lines.deep_view().len() as int,
        ) =~= lines.deep_view().map_values(|l: Seq<char>| trim_spec(l)));
    }
    out
}

/// Merges the additions into the existing ignore text, as the merge spec
/// describes: `None` when the file is to be left untouched.
#[verifier::loop_isolation(false)]
pub fn merge_gitignore(existing: &Option<String>, additions: &str) -> (r: Option<String>)
    ensures
        match r {
            Some(out) => merge_gitignore_spec(
                crate::settings::opt_text_view(existing),
                additions@,
            ) == Some(out@),
            None => merge_gitignore_spec(crate::settings::opt_text_view(existing), additions@)
                is None,
        },
{
    let ex_text: &str = match existing {
        Some(s) => s.as_str(),
        None => "",
    };
    proof {
        reveal_strlit("");
        assert(ex_text@ =~= (match crate::settings::opt_text_view(existing) {
            None => Seq::<char>::empty(),
            Some(t) => t,
        }));
    }
    let ex_lines = split_lines(ex_text);
    let ex_trimmed = trim_all(&ex_lines);
    let add_lines = split_lines(additions);
    let add_trimmed = trim_all(&add_lines);
    let ghost adds_v = trimmed_lines(additions@);
    let ghost ex_v = trimmed_lines(ex_text@);
    proof {
        assert(add_trimmed.deep_view() == adds_v);
        assert(ex_trimmed.deep_view() == ex_v);
    }
    let mut entries: Vec<String> = Vec::new();
    let mut i: usize = 0;
    proof {
        assert(adds_v.skip(0) =~= adds_v);
        assert(entries.deep_view() + new_entries_spec(adds_v, ex_v) =~= new_entries_spec(
            adds_v,
            ex_v,
        ));
    }
    while i < add_trimmed.len()
        invariant
            i <= add_trimmed@.len(),
            entries.deep_view() + new_entries_spec(adds_v.skip(i as int), ex_v) =~= new_entries_spec(
                adds_v,
                ex_v,
            ),
        decreases add_trimmed@.len() - i,
    {
        let ghost prev = entries.deep_view();
        let line = &add_trimmed[i];
        proof {
            assert(adds_v.skip(i as int)[0] == adds_v[i as int]);
            assert(adds_v[i as int] == add_trimmed@[i as int]@);
        }
        if line.as_str().unicode_len() > 0 && !crate::language::contains_name(
            &ex_trimmed,
            line.as_str(),
        ) {
            entries.push(line.clone());
            proof {
                assert(entries.deep_view() =~= prev.push(adds_v[i as int]));
                assert(prev + (seq![adds_v[i as int]] + new_entries_spec(
                    adds_v.skip(i as int + 1),
                    ex_v,
                )) =~= entries.deep_view() + new_entries_spec(adds_v.skip(i as int + 1), ex_v));
            }
        }
        proof {
            assert(adds_v.skip(i as int).drop_first() =~= adds_v.skip(i as int + 1));
        }
        i = i + 1;
    }
    proof {
        assert(adds_v.skip(adds_v.len() as int) =~= Seq::<Seq<char>>::empty());
        assert(entries.deep_view() + Seq::<Seq<char>>::empty() =~= entries.deep_view());
        assert(entries.deep_view() == new_entries_spec(adds_v, ex_v));
    }
    if entries.len() == 0 {
        return None;
    }
    let mut out = ex_text.to_owned();
    if !ends_with_str(ex_text, "\n") {
        crate::text::push_char(&mut out, '\n');
    }
    proof {
        reveal_strlit("\n");
        let ex = ex_text@;
        if ex.len() > 0 && ex[ex.len() - 1] == '\n' {
            assert(ex.subrange(ex.len() - 1, ex.len() as int) =~= "\n"@);
        } else {
            if crate::text::ends_with_spec(ex, "\n"@) {
                assert(ex[ex.len() - 1] == ex.subrange(ex.len() - 1, ex.len() as int)[0]);
            }
        }
    }
    out.append("\n# Agent related\n");
    let ghost base_and_header = out@;
    let ghost entries_v = entries.deep_view();
    let mut i: usize = 0;
    proof {
        assert(entries_block(entries_v.take(0)) =~= Seq::<char>::empty());
        assert(out@ =~= base_and_header + entries_block(entries_v.take(0)));
    }
    while i < entries.len()
        invariant
            i <= entries@.len(),
            out@ =~= base_and_header + entries_block(entries_v.take(i as int)),
        decreases entries@.len() - i,
    {
        out.append(entries[i].as_str());
        out.append("\n");
        proof {
            lemma_entries_block_take(entries_v, i as int);
            assert(out@ =~= base_and_header + entries_block(entries_v.take(i as int + 1)));
        }
        i = i + 1;
    }
    proof {
        assert(entries_v.take(entries_v.len() as int) =~= entries_v);
    }
    Some(out)
}

} // verus!
