//! One pending change record.
use vstd::prelude::*;
use crate::error::BumpError;
use crate::text::strings_view;
use crate::version::{bump_fits, bumped, calculate_next_version, highest_class, BumpClass, Version};

verus! {

/// One pending change: its id (the name of its file), its bump class, the
/// modules it touches, its category tag, its description and the version in
/// effect when it was written.
#[derive(Clone, Debug, PartialEq, Eq)]
pub struct Changeset {
    pub name: String,
    pub change: BumpClass,
    pub modules: Vec<String>,
    pub tag: String,
    pub message: String,
    pub version: Version,
}

/// The contents of a record as plain values.
pub struct ChangesetView {
    pub name: Seq<char>,
    pub change: BumpClass,
    pub modules: Seq<Seq<char>>,
    pub tag: Seq<char>,
    pub message: Seq<char>,
    pub version: Version,
}

impl View for Changeset {
    type V = ChangesetView;

    open spec fn view(&self) -> ChangesetView {
        ChangesetView {
            name: self.name@,
            change: self.change,
            modules: strings_view(self.modules@),
            tag: self.tag@,
            message: self.message@,
            version: self.version,
        }
    }
}

/// The views of the records, in order.
pub open spec fn records_view(v: Seq<Changeset>) -> Seq<ChangesetView> {
    v.map_values(|c: Changeset| c@)
}

/// The bump classes of the records, in order.
pub open spec fn classes_of(v: Seq<ChangesetView>) -> Seq<BumpClass> {
    v.map_values(|c: ChangesetView| c.change)
}

/// The version that a non-empty set of records resolves to from `current`:
/// one increment by the most severe class present.
pub open spec fn resolved_version(v: Seq<ChangesetView>, current: Version) -> Version {
    bumped(current, highest_class(classes_of(v)))
}

impl Changeset {
    /// A record from its fields.
    pub fn new(
        name: String,
        change: BumpClass,
        modules: Vec<String>,
        tag: String,
        message: String,
        version: Version,
    ) -> (r: Changeset)
        ensures
            r.name == name,
            r.change == change,
            r.modules == modules,
            r.tag == tag,
            r.message == message,
            r.version == version,
    {
        Changeset { name, change, modules, tag, message, version }
    }
}

/// The most severe bump class among the records, if there is any record.
pub fn highest_change(changesets: &Vec<Changeset>) -> (r: Option<BumpClass>)
    ensures
        changesets.len() == 0 ==> r is None,
        changesets.len() > 0 ==> r == Some(highest_class(classes_of(records_view(changesets@)))),
{
    let mut best: Option<BumpClass> = None;
    let mut i: usize = 0;
    while i < changesets.len()
        invariant
            i <= changesets.len(),
            i == 0 ==> best is None,
            i > 0 ==> best == Some(highest_class(classes_of(records_view(changesets@.take(i as int))))),
        decreases changesets.len() - i,
    {
        let c = changesets[i].change;
        let ghost before = classes_of(records_view(changesets@.take(i as int)));
        let ghost after = classes_of(records_view(changesets@.take(i + 1)));
        proof {
            assert(after =~= before.push(c));
            assert(after.contains(c)) by {
                assert(after[i as int] == c);
            }
            assert forall|k: BumpClass| before.contains(k) implies after.contains(k) by {
                let j = choose|j: int| 0 <= j < before.len() && before[j] == k;
                assert(after[j] == k);
            }
            assert forall|k: BumpClass| after.contains(k) implies before.contains(k) || k == c by {
                let j = choose|j: int| 0 <= j < after.len() && after[j] == k;
                if j < before.len() {
                    assert(before[j] == k);
                }
            }
        }
        best = match best {
            None => Some(c),
            Some(b) => match (b, c) {
                (BumpClass::Major, _) | (_, BumpClass::Major) => Some(BumpClass::Major),
                (BumpClass::Minor, _) | (_, BumpClass::Minor) => Some(BumpClass::Minor),
                _ => Some(BumpClass::Patch),
            },
        };
        i = i + 1;
    }
    assert(changesets@.take(changesets.len() as int) =~= changesets@);
    best
}

/// Resolves the pending records into the next version: one increment of
/// `current` by the most severe class present (MAJOR over MINOR over PATCH),
/// however many records there are and in whatever order.
pub fn find_largest_version(changesets: &Vec<Changeset>, current: &Version) -> (r: Result<
    Version,
    BumpError,
>)
    requires
        changesets.len() > 0 ==> bump_fits(
            *current,
            highest_class(classes_of(records_view(changesets@))),
        ),
    ensures
        changesets.len() == 0 ==> r == Err::<Version, BumpError>(BumpError::NoPendingChanges),
        changesets.len() > 0 ==> r == Ok::<Version, BumpError>(
            resolved_version(records_view(changesets@), *current),
        ),
{
    match highest_change(changesets) {
        None => Err(BumpError::NoPendingChanges),
        Some(c) => Ok(calculate_next_version(current, c)),
    }
}

/// Resolution depends only on which bump classes occur among the records,
/// not on their order nor on how many records declare each: two non-empty
/// record sets with the same classes present resolve to the same version,
/// and that version is one increment by the most severe class present.
pub proof fn lemma_resolution_ignores_order_and_counts(
    a: Seq<ChangesetView>,
    b: Seq<ChangesetView>,
    current: Version,
)
    requires
        forall|c: BumpClass| classes_of(a).contains(c) <==> classes_of(b).contains(c),
    ensures
        resolved_version(a, current) == resolved_version(b, current),
        classes_of(a).contains(BumpClass::Major) ==> resolved_version(a, current) == bumped(
            current,
            BumpClass::Major,
        ),
        !classes_of(a).contains(BumpClass::Major) && classes_of(a).contains(BumpClass::Minor)
            ==> resolved_version(a, current) == bumped(current, BumpClass::Minor),
        !classes_of(a).contains(BumpClass::Major) && !classes_of(a).contains(BumpClass::Minor)
            ==> resolved_version(a, current) == bumped(current, BumpClass::Patch),
{
    assert(classes_of(a).contains(BumpClass::Major) == classes_of(b).contains(BumpClass::Major));
    assert(classes_of(a).contains(BumpClass::Minor) == classes_of(b).contains(BumpClass::Minor));
}

} // verus!
