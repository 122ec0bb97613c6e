//! Listing the pending records: every record file is read; the well-formed
//! ones are kept in order of their ids, each malformed one is reported.
use vstd::prelude::*;
use vstd::seq_lib::to_multiset_insert;
use crate::changeset::{records_view, Changeset, ChangesetView};
use crate::error::BumpError;
use crate::record::{process_file, record_id, record_of_text};
use crate::text::chars_of;

verus! {

/// `a` comes before `b` in the order of their characters' code points
/// (which is the order of their UTF-8 bytes).
pub open spec fn id_less(a: Seq<char>, b: Seq<char>) -> bool
    decreases a.len(),
{
    if a.len() == 0 {
        b.len() > 0
    } else if b.len() == 0 {
        false
    } else if a[0] != b[0] {
        a[0] < b[0]
    } else {
        id_less(a.drop_first(), b.drop_first())
    }
}

/// The order of ids is transitive.
pub proof fn lemma_id_less_transitive(a: Seq<char>, b: Seq<char>, c: Seq<char>)
    requires
        id_less(a, b),
        id_less(b, c),
    ensures
        id_less(a, c),
    decreases a.len(),
{
    if a.len() > 0 && b.len() > 0 && c.len() > 0 && a[0] == b[0] && b[0] == c[0] {
        lemma_id_less_transitive(a.drop_first(), b.drop_first(), c.drop_first());
    }
}

/// No id comes before itself.
pub proof fn lemma_id_less_irreflexive(a: Seq<char>)
    ensures
        !id_less(a, a),
    decreases a.len(),
{
    if a.len() > 0 {
        lemma_id_less_irreflexive(a.drop_first());
    }
}

/// The records are in order of their ids.
pub open spec fn sorted_by_id(rs: Seq<ChangesetView>) -> bool {
    forall|i: int, j: int| 0 <= i < j < rs.len() ==> !id_less(rs[j].name, rs[i].name)
}

/// A pending file as its name and its text.
pub open spec fn files_view(files: Seq<(String, String)>) -> Seq<(Seq<char>, Seq<char>)> {
    files.map_values(|f: (String, String)| (f.0@, f.1@))
}

/// The well-formed records among the files, in the files' order.
pub open spec fn parsed_records(files: Seq<(Seq<char>, Seq<char>)>) -> Seq<ChangesetView>
    decreases files.len(),
{
    if files.len() == 0 {
        Seq::empty()
    } else {
        let prev = parsed_records(files.drop_last());
        match record_id(files.last().0) {
            Some(id) => match record_of_text(id, files.last().1) {
                Some(c) => prev.push(c),
                None => prev,
            },
            None => prev,
        }
    }
}

/// The ids of the malformed record files, in the files' order.
pub open spec fn malformed_ids(files: Seq<(Seq<char>, Seq<char>)>) -> Seq<Seq<char>>
    decreases files.len(),
{
    if files.len() == 0 {
        Seq::empty()
    } else {
        let prev = malformed_ids(files.drop_last());
        match record_id(files.last().0) {
            Some(id) => match record_of_text(id, files.last().1) {
                Some(c) => prev,
                None => prev.push(id),
            },
            None => prev,
        }
    }
}

/// The number of record files (those named `<id>.toml`) among the files.
pub open spec fn record_file_count(files: Seq<(Seq<char>, Seq<char>)>) -> nat
    decreases files.len(),
{
    if files.len() == 0 {
        0
    } else {
        record_file_count(files.drop_last()) + (if record_id(files.last().0) is Some {
            1nat
        } else {
            0nat
        })
    }
}

/// The diagnostics are exactly the malformed-record errors of `ids`, in order.
pub open spec fn reports(diagnostics: Seq<BumpError>, ids: Seq<Seq<char>>) -> bool {
    diagnostics.len() == ids.len() && forall|i: int|
        0 <= i < ids.len() ==> (#[trigger] diagnostics[i] matches BumpError::MalformedRecord { id }
            && id@ == ids[i])
}

/// The result of listing: the well-formed records in order of their ids,
/// and one diagnostic per malformed record file.
#[derive(Clone, Debug, PartialEq, Eq)]
pub struct Listing {
    pub changesets: Vec<Changeset>,
    pub diagnostics: Vec<BumpError>,
}

/// Whether id `a` comes before id `b`.
pub fn id_less_exec(a: &Vec<char>, b: &Vec<char>) -> (r: bool)
    ensures
        r == id_less(a@, b@),
{
    let mut i: usize = 0;
    assert(a@.skip(0) =~= a@);
    assert(b@.skip(0) =~= b@);
    while i < a.len() && i < b.len() && a[i] == b[i]
        invariant
            i <= a.len(),
            i <= b.len(),
            id_less(a@, b@) == id_less(a@.skip(i as int), b@.skip(i as int)),
        decreases a.len() - i,
    {
        proof {
            assert(a@.skip(i + 1) =~= a@.skip(i as int).drop_first());
            assert(b@.skip(i + 1) =~= b@.skip(i as int).drop_first());
        }
        i = i + 1;
    }
    if i == a.len() {
        i < b.len()
    } else if i == b.len() {
        false
    } else {
        assert(a@.skip(i as int)[0] == a@[i as int]);
        assert(b@.skip(i as int)[0] == b@[i as int]);
        a[i] < b[i]
    }
}

/// Inserts `c` into records sorted by id, after those whose ids do not come after its id.
fn insert_sorted(v: &mut Vec<Changeset>, c: Changeset)
    requires
        sorted_by_id(records_view(old(v)@)),
    ensures
        sorted_by_id(records_view(final(v)@)),
        records_view(final(v)@).to_multiset() == records_view(old(v)@).to_multiset().insert(c@),
{
    let ghost rs = records_view(v@);
    let cn = chars_of(c.name.as_str());
    let mut k: usize = 0;
    let mut stop = false;
    while k < v.len() && !stop
        invariant
            k <= v.len(),
            rs == records_view(v@),
            cn@ == c.name@,
            forall|j: int| 0 <= j < k ==> !id_less(c.name@, #[trigger] rs[j].name),
            stop ==> k < v.len() && id_less(c.name@, rs[k as int].name),
        decreases v.len() - k + (if stop { 0int } else { 1int }),
    {
        let vn = chars_of(v[k].name.as_str());
        assert(rs[k as int] == v@[k as int]@);
        if id_less_exec(&cn, &vn) {
            stop = true;
        } else {
            k = k + 1;
        }
    }
    let ghost cv = c@;
    v.insert(k, c);
    proof {
        let ns = records_view(v@);
        assert(ns =~= rs.insert(k as int, cv));
        to_multiset_insert(rs, k as int, cv);
        assert forall|i: int, j: int| 0 <= i < j < ns.len() implies !id_less(
            ns[j].name,
            ns[i].name,
        ) by {
            if j == k {
                assert(ns[i] == rs[i]);
            } else if i == k {
                assert(ns[j] == rs[j - 1]);
                assert(stop);
                if id_less(rs[j - 1].name, cv.name) {
                    lemma_id_less_transitive(rs[j - 1].name, cv.name, rs[k as int].name);
                    if j - 1 > k as int {
                        assert(!id_less(rs[j - 1].name, rs[k as int].name));
                    } else {
                        lemma_id_less_irreflexive(rs[k as int].name);
                    }
                }
            } else {
                let oi = if i < k { i } else { i - 1 };
                let oj = if j < k { j } else { j - 1 };
                assert(ns[i] == rs[oi]);
                assert(ns[j] == rs[oj]);
            }
        }
    }
}

/// Lists the pending records from the pending files, given as (file name,
/// text) pairs. Files not named `<id>.toml` are ignored; a record file that
/// fails to parse is skipped and reported, and never stops the listing.
pub fn get_current_changesets(files: &Vec<(String, String)>) -> (r: Listing)
    ensures
        sorted_by_id(records_view(r.changesets@)),
        records_view(r.changesets@).to_multiset() == parsed_records(
            files_view(files@),
        ).to_multiset(),
        reports(r.diagnostics@, malformed_ids(files_view(files@))),
{
    let ghost fv = files_view(files@);
    let mut changesets: Vec<Changeset> = Vec::new();
    let mut diagnostics: Vec<BumpError> = Vec::new();
    let mut i: usize = 0;
    proof {
        assert(records_view(changesets@) =~= parsed_records(fv.take(0)));
    }
    while i < files.len()
        invariant
            i <= files.len(),
            fv == files_view(files@),
            sorted_by_id(records_view(changesets@)),
            records_view(changesets@).to_multiset() == parsed_records(
                fv.take(i as int),
            ).to_multiset(),
            reports(diagnostics@, malformed_ids(fv.take(i as int))),
        decreases files.len() - i,
    {
        proof {
            assert(fv.take(i + 1).drop_last() =~= fv.take(i as int));
            assert(fv.take(i + 1).last() == fv[i as int]);
            assert(fv[i as int] == (files@[i as int].0@, files@[i as int].1@));
        }
        let ghost prev_parsed = parsed_records(fv.take(i as int));
        let ghost prev_bad = malformed_ids(fv.take(i as int));
        match process_file(files[i].0.as_str(), files[i].1.as_str()) {
            None => {},
            Some(Ok(c)) => {
                let ghost cv = c@;
                insert_sorted(&mut changesets, c);
                proof {
                    to_multiset_insert(prev_parsed, prev_parsed.len() as int, cv);
                    assert(prev_parsed.insert(prev_parsed.len() as int, cv) =~= prev_parsed.push(cv));
                }
            },
            Some(Err(e)) => {
                let ghost before = diagnostics@;
                diagnostics.push(e);
                proof {
                    let nb = malformed_ids(fv.take(i + 1));
                    assert(nb =~= prev_bad.push(nb.last()));
                    assert forall|j: int| 0 <= j < nb.len() implies (#[trigger] diagnostics@[j] matches BumpError::MalformedRecord { id }
                        && id@ == nb[j]) by {
                        if j < prev_bad.len() {
                            assert(diagnostics@[j] == before[j]);
                        }
                    }
                }
            },
        }
        i = i + 1;
    }
    assert(fv.take(files.len() as int) =~= fv);
    Listing { changesets, diagnostics }
}

/// Listing accounts for every record file: each one gives either a record
/// or a diagnostic.
pub proof fn lemma_listing_accounts_for_every_file(files: Seq<(Seq<char>, Seq<char>)>)
    ensures
        parsed_records(files).len() + malformed_ids(files).len() == record_file_count(files),
    decreases files.len(),
{
    if files.len() > 0 {
        lemma_listing_accounts_for_every_file(files.drop_last());
    }
}

} // verus!
