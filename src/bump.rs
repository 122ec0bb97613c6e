//! The release step: resolve the pending records into one version, render
//! their changelog section, splice it into the changelog and rewrite the
//! version declaration.
use vstd::prelude::*;
use crate::changelog::{entry_lines, insert_changelog_entry, insertion_point, new_changelog_entry};
use crate::changeset::{
    classes_of, find_largest_version, highest_change, records_view, resolved_version, Changeset,
    ChangesetView,
};
use crate::error::BumpError;
use crate::diff::{text_lines, text_lines_exec};
use crate::text::{append_text, join, join_strings, pieces_view, string_of, strings_view};
use crate::version::{bump_fits, highest_class, Version};
use crate::version_file::{
    declared_version, find_version, patched_content, update_version_text,
};

verus! {

/// What a release writes: the new version, the new changelog text and the
/// new text of the version-bearing file.
#[derive(Clone, Debug, PartialEq, Eq)]
pub struct BumpPlan {
    pub version: Version,
    pub changelog: String,
    pub version_file: String,
}

/// The text of the changelog section of `rs` for version `v`.
pub open spec fn entry_text(rs: Seq<ChangesetView>, v: Version) -> Seq<char> {
    join(entry_lines(rs, v), Seq::empty())
}

/// The changelog `changelog` with `entry` spliced in as one more line:
/// before the first line that opens a version's section, else at the end.
/// The lines are those that `str::lines` yields, and every line of the
/// result, the last one included, ends with a newline.
pub open spec fn changelog_with_entry(changelog: Seq<char>, entry: Seq<char>) -> Seq<char> {
    let lines = text_lines(changelog);
    join(lines.insert(insertion_point(lines), entry), "\n"@) + "\n"@
}

/// Splices the rendered section `entry` into the changelog text.
pub fn update_changelog(changelog: &str, entry: &Vec<String>) -> (r: String)
    ensures
        r@ == changelog_with_entry(changelog@, join(strings_view(entry@), Seq::empty())),
{
    let pieces = text_lines_exec(changelog);
    let mut lines: Vec<String> = Vec::new();
    let mut k: usize = 0;
    while k < pieces.len()
        invariant
            k <= pieces.len(),
            strings_view(lines@) == pieces_view(pieces@).take(k as int),
        decreases pieces.len() - k,
    {
        let line = string_of(&pieces[k]);
        let ghost before = strings_view(lines@);
        assert(pieces_view(pieces@)[k as int] == pieces@[k as int]@);
        lines.push(line);
        assert(strings_view(lines@) =~= before.push(line@));
        assert(strings_view(lines@) =~= pieces_view(pieces@).take(k + 1));
        k = k + 1;
    }
    assert(pieces_view(pieces@).take(pieces.len() as int) =~= pieces_view(pieces@));
    let text = join_strings(entry, "");
    proof {
        reveal_strlit("");
        assert(""@ =~= Seq::<char>::empty());
    }
    insert_changelog_entry(&mut lines, text);
    let mut r = join_strings(&lines, "\n");
    append_text(&mut r, "\n");
    r
}

/// Plans a release from the pending records, the changelog text and the
/// text of the version-bearing file. Fails with `NoPendingChanges` when
/// there is no record, with the patcher's error when the file declares no
/// usable version, and with `InvalidVersion` when the next version does not
/// fit in 32-bit components. Otherwise the next version is one increment of
/// the declared version by the most severe class present, its section is
/// spliced into the changelog, and the declaration is rewritten to it.
pub fn bump_version(changesets: &Vec<Changeset>, changelog: &str, version_file: &str) -> (r: Result<
    BumpPlan,
    BumpError,
>)
    ensures
        changesets.len() == 0 ==> r == Err::<BumpPlan, BumpError>(BumpError::NoPendingChanges),
        changesets.len() > 0 ==> match declared_version(version_file@) {
            Err(e) => r == Err::<BumpPlan, BumpError>(e),
            Ok(current) => {
                let rs = records_view(changesets@);
                if !bump_fits(current, highest_class(classes_of(rs))) {
                    r == Err::<BumpPlan, BumpError>(BumpError::InvalidVersion)
                } else {
                    let next = resolved_version(rs, current);
                    r matches Ok(p) && p.version == next && p.changelog@ == changelog_with_entry(
                        changelog@,
                        entry_text(rs, next),
                    ) && p.version_file@ == patched_content(version_file@, next)
                }
            },
        },
{
    let class = match highest_change(changesets) {
        None => {
            return Err(BumpError::NoPendingChanges);
        },
        Some(c) => c,
    };
    let current = match find_version(version_file) {
        Err(e) => {
            return Err(e);
        },
        Ok(v) => v,
    };
    if !current.can_bump(class) {
        return Err(BumpError::InvalidVersion);
    }
    let next = match find_largest_version(changesets, &current) {
        Ok(v) => v,
        Err(e) => {
            return Err(e);
        },
    };
    let entry = new_changelog_entry(changesets, &next);
    let new_changelog = update_changelog(changelog, &entry);
    let new_version_file = match update_version_text(version_file, &next) {
        Ok(t) => t,
        Err(e) => {
            return Err(e);
        },
    };
    Ok(BumpPlan { version: next, changelog: new_changelog, version_file: new_version_file })
}

} // verus!
