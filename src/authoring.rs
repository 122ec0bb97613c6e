//! The choices and templates offered while a record is written.
use vstd::prelude::*;
use crate::diff::{text_lines, text_lines_exec};
use crate::text::{chars_of, pieces_view, string_of, strings_view, text_eq};
use crate::version::BumpClass;

verus! {

/// The tags offered for a change of class `c`, each with its emoji and meaning.
pub open spec fn tag_choices(c: BumpClass) -> Seq<Seq<char>> {
    match c {
        BumpClass::Major => seq![
            "⚰️  Remove: Removed features."@,
            "🚚 Rename: Renamed features."@,
            "✏️  I/O: Changing input/output of features."@,
            "💥 Behavior: Changing features behavior."@,
        ],
        BumpClass::Minor => seq![
            "✨ Feature: New feature."@,
            "➕ Add: Add functionality to existing feature."@,
            "✏️  I/O: Include optional input/output to a feature."@,
            "🗑️  Deprecated: Deprecated features."@,
        ],
        BumpClass::Patch => seq![
            "♻️  Refactor: Refactor of existing code."@,
            "🐛 Bug: Fix a bug."@,
            "⚡️ Optimization: Simple optimization of code."@,
            "🧪 Tests: Include or update tests."@,
            "🩹 Patch: Include or delete logs, catch errors or related things."@,
        ],
    }
}

/// The tags offered for a change of class `change`.
pub fn select_tags(change: BumpClass) -> (r: Vec<String>)
    ensures
        strings_view(r@) == tag_choices(change),
{
    let r = match change {
        BumpClass::Major => vec![
            "⚰️  Remove: Removed features.".to_owned(),
            "🚚 Rename: Renamed features.".to_owned(),
            "✏️  I/O: Changing input/output of features.".to_owned(),
            "💥 Behavior: Changing features behavior.".to_owned(),
        ],
        BumpClass::Minor => vec![
            "✨ Feature: New feature.".to_owned(),
            "➕ Add: Add functionality to existing feature.".to_owned(),
            "✏️  I/O: Include optional input/output to a feature.".to_owned(),
            "🗑️  Deprecated: Deprecated features.".to_owned(),
        ],
        BumpClass::Patch => vec![
            "♻️  Refactor: Refactor of existing code.".to_owned(),
            "🐛 Bug: Fix a bug.".to_owned(),
            "⚡️ Optimization: Simple optimization of code.".to_owned(),
            "🧪 Tests: Include or update tests.".to_owned(),
            "🩹 Patch: Include or delete logs, catch errors or related things.".to_owned(),
        ],
    };
    assert(strings_view(r@) =~= tag_choices(change));
    r
}

/// The template suggested for a description of a change of class `c` with tag `tag`;
/// empty for a pair that has none.
pub open spec fn message_template(c: BumpClass, tag: Seq<char>) -> Seq<char> {
    match c {
        BumpClass::Major => if tag == "Remove"@ {
            "Remove ... functionality because ..."@
        } else if tag == "Rename"@ {
            "Rename ... to ... to better reflect ..."@
        } else if tag == "I/O"@ {
            "Change ... input/output to ..."@
        } else if tag == "Behavior"@ {
            "Change behavior of ... to ..."@
        } else {
            ""@
        },
        BumpClass::Minor => if tag == "Feature"@ {
            "Add ... feature that allows ..."@
        } else if tag == "Add"@ {
            "Add ... functionality to ..."@
        } else if tag == "I/O"@ {
            "Include optional ... parameter to ..."@
        } else if tag == "Deprecated"@ {
            "Mark ... as deprecated, to be removed in version ..."@
        } else {
            ""@
        },
        BumpClass::Patch => if tag == "Refactor"@ {
            "Refactor ... to improve ..."@
        } else if tag == "Bug"@ {
            "Fix ... bug where ..."@
        } else if tag == "Optimization"@ {
            "Optimize ... to improve performance by ..."@
        } else if tag == "Tests"@ {
            "Add tests for ... to verify ..."@
        } else if tag == "Patch"@ {
            "Update ... to handle ..."@
        } else {
            ""@
        },
    }
}

/// The template suggested for a description of a change of class `change` with tag `tag`.
pub fn get_message_template(change: BumpClass, tag: &str) -> (r: String)
    ensures
        r@ == message_template(change, tag@),
{
    let t = chars_of(tag);
    let s: &str = match change {
        BumpClass::Major => if text_eq(&t, "Remove") {
            "Remove ... functionality because ..."
        } else if text_eq(&t, "Rename") {
            "Rename ... to ... to better reflect ..."
        } else if text_eq(&t, "I/O") {
            "Change ... input/output to ..."
        } else if text_eq(&t, "Behavior") {
            "Change behavior of ... to ..."
        } else {
            ""
        },
        BumpClass::Minor => if text_eq(&t, "Feature") {
            "Add ... feature that allows ..."
        } else if text_eq(&t, "Add") {
            "Add ... functionality to ..."
        } else if text_eq(&t, "I/O") {
            "Include optional ... parameter to ..."
        } else if text_eq(&t, "Deprecated") {
            "Mark ... as deprecated, to be removed in version ..."
        } else {
            ""
        },
        BumpClass::Patch => if text_eq(&t, "Refactor") {
            "Refactor ... to improve ..."
        } else if text_eq(&t, "Bug") {
            "Fix ... bug where ..."
        } else if text_eq(&t, "Optimization") {
            "Optimize ... to improve performance by ..."
        } else if text_eq(&t, "Tests") {
            "Add tests for ... to verify ..."
        } else if text_eq(&t, "Patch") {
            "Update ... to handle ..."
        } else {
            ""
        },
    };
    s.to_owned()
}

/// The entry that lets the author name a module by hand.
pub open spec fn other_choice() -> Seq<char> {
    "Other (specify manually)"@
}

/// The non-empty lines, in order.
pub open spec fn non_empty_lines(lines: Seq<Seq<char>>) -> Seq<Seq<char>> {
    lines.filter(|l: Seq<char>| l.len() > 0)
}

/// The modules offered from the list of changed files (one per line): each
/// non-empty line, then the entry for naming one by hand; nothing when no
/// file changed.
pub open spec fn module_choices(listing: Seq<char>) -> Seq<Seq<char>> {
    let files = non_empty_lines(text_lines(listing));
    if files.len() == 0 {
        files
    } else {
        files.push(other_choice())
    }
}

/// The modules offered from the list of changed files, one per line.
pub fn changed_file_choices(listing: &str) -> (r: Vec<String>)
    ensures
        strings_view(r@) == module_choices(listing@),
{
    let lines = text_lines_exec(listing);
    let ghost ls = pieces_view(lines@);
    let mut out: Vec<String> = Vec::new();
    let mut i: usize = 0;
    while i < lines.len()
        invariant
            i <= lines.len(),
            ls == pieces_view(lines@),
            strings_view(out@) == non_empty_lines(ls.take(i as int)),
        decreases lines.len() - i,
    {
        proof {
            assert(ls.take(i + 1).drop_last() =~= ls.take(i as int));
            assert(ls[i as int] == lines@[i as int]@);
            reveal(Seq::filter);
        }
        let ghost before = strings_view(out@);
        if lines[i].len() > 0 {
            let s = string_of(&lines[i]);
            out.push(s);
            assert(strings_view(out@) =~= before.push(s@));
        }
        assert(strings_view(out@) =~= non_empty_lines(ls.take(i + 1)));
        i = i + 1;
    }
    assert(ls.take(lines.len() as int) =~= ls);
    if out.len() > 0 {
        let ghost before = strings_view(out@);
        let o = "Other (specify manually)".to_owned();
        out.push(o);
        assert(strings_view(out@) =~= before.push(o@));
    }
    out
}

} // verus!
