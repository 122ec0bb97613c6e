//! The changelog section of a release: one heading for the version, one
//! subsection per tag in first-seen order, one line per record.
use vstd::prelude::*;
use crate::changeset::{records_view, Changeset, ChangesetView};
use crate::text::{append_text, has_prefix, join, join_strings, strings_view};
use crate::version::{version_text, Version};

verus! {

/// The line that renders one record: `- <modules>: <description>.` when it
/// names modules (joined with ", "), else `- <description>.`.
pub open spec fn record_line(c: ChangesetView) -> Seq<char> {
    if c.modules.len() == 0 {
        "- "@ + c.message + ".\n"@
    } else {
        "- "@ + join(c.modules, ", "@) + ": "@ + c.message + ".\n"@
    }
}

/// The lines of the records tagged `tag`, in their order.
pub open spec fn tag_lines(rs: Seq<ChangesetView>, tag: Seq<char>) -> Seq<Seq<char>>
    decreases rs.len(),
{
    if rs.len() == 0 {
        Seq::empty()
    } else {
        let p = tag_lines(rs.drop_last(), tag);
        if rs.last().tag == tag {
            p.push(record_line(rs.last()))
        } else {
            p
        }
    }
}

/// The distinct tags of the records, in the order in which each first appears.
pub open spec fn first_seen_tags(rs: Seq<ChangesetView>) -> Seq<Seq<char>>
    decreases rs.len(),
{
    if rs.len() == 0 {
        Seq::empty()
    } else {
        let p = first_seen_tags(rs.drop_last());
        if p.contains(rs.last().tag) {
            p
        } else {
            p.push(rs.last().tag)
        }
    }
}

/// The subheading of a tag.
pub open spec fn tag_heading(tag: Seq<char>) -> Seq<char> {
    "\n### "@ + tag + "\n\n"@
}

/// One subsection per tag of `tags`, in that order, each with the lines of its records.
pub open spec fn sections(rs: Seq<ChangesetView>, tags: Seq<Seq<char>>) -> Seq<Seq<char>>
    decreases tags.len(),
{
    if tags.len() == 0 {
        Seq::empty()
    } else {
        sections(rs, tags.drop_last()) + seq![tag_heading(tags.last())] + tag_lines(rs, tags.last())
    }
}

/// The heading of a version's section.
pub open spec fn version_heading(v: Version) -> Seq<char> {
    "## ["@ + version_text(v) + "]\n"@
}

/// The pieces of the changelog section of `rs` for version `v`.
pub open spec fn entry_lines(rs: Seq<ChangesetView>, v: Version) -> Seq<Seq<char>> {
    seq![version_heading(v)] + sections(rs, first_seen_tags(rs))
}

/// A line that opens a version's section.
pub open spec fn is_version_heading(line: Seq<char>) -> bool {
    has_prefix(line, "## ["@)
}

/// `i` is the first line that opens a version's section.
pub open spec fn is_first_heading(lines: Seq<Seq<char>>, i: int) -> bool {
    0 <= i < lines.len() && is_version_heading(lines[i]) && forall|j: int|
        0 <= j < i ==> !is_version_heading(#[trigger] lines[j])
}

/// Where a new section goes: before the first version heading, else at the end.
pub open spec fn insertion_point(lines: Seq<Seq<char>>) -> int {
    if exists|i: int| is_first_heading(lines, i) {
        choose|i: int| is_first_heading(lines, i)
    } else {
        lines.len() as int
    }
}

/// The line that renders one record.
pub fn record_line_text(c: &Changeset) -> (r: String)
    ensures
        r@ == record_line(c@),
{
    let mut r = "- ".to_owned();
    if c.modules.len() > 0 {
        let m = join_strings(&c.modules, ", ");
        append_text(&mut r, m.as_str());
        append_text(&mut r, ": ");
    }
    append_text(&mut r, c.message.as_str());
    append_text(&mut r, ".\n");
    r
}

/// Renders the changelog section for `version`: its heading, then one
/// subsection per tag in first-seen order, each listing the lines of the
/// records with that tag in their input order.
pub fn new_changelog_entry(changesets: &Vec<Changeset>, version: &Version) -> (r: Vec<String>)
    ensures
        strings_view(r@) == entry_lines(records_view(changesets@), *version),
{
    let ghost rs = records_view(changesets@);
    let mut printed_tags: Vec<String> = Vec::new();
    let mut content: Vec<String> = Vec::new();
    let mut heading = "## [".to_owned();
    let vt = version.to_text();
    append_text(&mut heading, vt.as_str());
    append_text(&mut heading, "]\n");
    content.push(heading);
    assert(strings_view(content@) =~= seq![version_heading(*version)] + sections(rs, Seq::empty()));
    let mut i: usize = 0;
    while i < changesets.len()
        invariant
            i <= changesets.len(),
            rs == records_view(changesets@),
            strings_view(printed_tags@) == first_seen_tags(rs.take(i as int)),
            strings_view(content@) == seq![version_heading(*version)] + sections(
                rs,
                first_seen_tags(rs.take(i as int)),
            ),
        decreases changesets.len() - i,
    {
        let tag = &changesets[i].tag;
        proof {
            assert(rs[i as int] == changesets@[i as int]@);
            assert(rs.take(i + 1).drop_last() =~= rs.take(i as int));
            assert(rs.take(i + 1).last() == rs[i as int]);
        }
        let mut seen = false;
        let mut k: usize = 0;
        while k < printed_tags.len()
            invariant
                k <= printed_tags.len(),
                seen <==> exists|j: int| 0 <= j < k && printed_tags@[j]@ == tag@,
            decreases printed_tags.len() - k,
        {
            if printed_tags[k] == *tag {
                seen = true;
            }
            k = k + 1;
        }
        let ghost prev = first_seen_tags(rs.take(i as int));
        proof {
            assert(prev == strings_view(printed_tags@));
            if seen {
                let j = choose|j: int| 0 <= j < printed_tags.len() && printed_tags@[j]@ == tag@;
                assert(prev[j] == tag@);
            } else {
                assert forall|j: int| 0 <= j < prev.len() implies prev[j] != tag@ by {
                    assert(prev[j] == printed_tags@[j]@);
                }
            }
        }
        if !seen {
            let mut h = "\n### ".to_owned();
            append_text(&mut h, tag.as_str());
            append_text(&mut h, "\n\n");
            let ghost before_heading = strings_view(content@);
            proof {
                assert(h@ == tag_heading(tag@));
            }
            content.push(h);
            let ghost base = strings_view(content@);
            assert(base =~= before_heading.push(tag_heading(tag@)));
            let mut j: usize = 0;
            while j < changesets.len()
                invariant
                    j <= changesets.len(),
                    rs == records_view(changesets@),
                    tag@ == rs[i as int].tag,
                    i < changesets.len(),
                    strings_view(content@) == base + tag_lines(rs.take(j as int), tag@),
                decreases changesets.len() - j,
            {
                proof {
                    assert(rs.take(j + 1).drop_last() =~= rs.take(j as int));
                    assert(rs.take(j + 1).last() == rs[j as int]);
                }
                assert(rs[j as int] == changesets@[j as int]@);
                if changesets[j].tag == *tag {
                    let line = record_line_text(&changesets[j]);
                    let ghost before = strings_view(content@);
                    content.push(line);
                    assert(strings_view(content@) =~= before.push(line@));
                    assert(strings_view(content@) =~= base + tag_lines(rs.take(j + 1), tag@));
                } else {
                    assert(strings_view(content@) =~= base + tag_lines(rs.take(j + 1), tag@));
                }
                j = j + 1;
            }
            let t = tag.clone();
            printed_tags.push(t);
            proof {
                assert(rs.take(changesets.len() as int) =~= rs);
                assert(strings_view(printed_tags@) =~= first_seen_tags(rs.take(i + 1)));
                let nt = first_seen_tags(rs.take(i + 1));
                assert(nt.drop_last() =~= prev);
                assert(nt.last() == tag@);
                assert(strings_view(content@) =~= seq![version_heading(*version)] + sections(rs, nt));
            }
        } else {
            assert(first_seen_tags(rs.take(i + 1)) == prev);
        }
        i = i + 1;
    }
    proof {
        assert(rs.take(changesets.len() as int) =~= rs);
        reveal_strlit("## [");
    }
    content
}

/// Inserts `entry` before the first line that opens a version's section, or
/// at the end when there is none.
pub fn insert_changelog_entry(lines: &mut Vec<String>, entry: String)
    ensures
        strings_view(final(lines)@) == strings_view(old(lines)@).insert(
            insertion_point(strings_view(old(lines)@)),
            entry@,
        ),
{
    let ghost ls = strings_view(lines@);
    let mut i: usize = 0;
    let mut found = false;
    while i < lines.len() && !found
        invariant
            i <= lines.len(),
            ls == strings_view(lines@),
            found ==> i < lines.len() && is_first_heading(ls, i as int),
            !found ==> forall|j: int| 0 <= j < i ==> !is_version_heading(#[trigger] ls[j]),
        decreases lines.len() - i + (if found { 0int } else { 1int }),
    {
        let cs = crate::text::chars_of(lines[i].as_str());
        if crate::text::starts_with(&cs, "## [") {
            found = true;
        } else {
            i = i + 1;
        }
    }
    proof {
        if found {
            let c = choose|c: int| is_first_heading(ls, c);
            if c < i {
                assert(!is_version_heading(ls[c]));
            } else if c > i {
                assert(!is_version_heading(ls[i as int]));
            }
            assert(insertion_point(ls) == i);
        } else {
            assert(!exists|c: int| is_first_heading(ls, c));
        }
    }
    lines.insert(i, entry);
    assert(strings_view(lines@) =~= ls.insert(i as int, entry@));
}

/// Some record tagged `a` comes before every record tagged `b`.
pub open spec fn appears_before(rs: Seq<ChangesetView>, a: Seq<char>, b: Seq<char>) -> bool {
    exists|k: int|
        0 <= k < rs.len() && rs[k].tag == a && forall|m: int| 0 <= m <= k ==> #[trigger] rs[m].tag != b
}

/// `tags` lists the tags of `rs` once each, in the order in which each
/// first appears among the records.
pub open spec fn in_first_seen_order(rs: Seq<ChangesetView>, tags: Seq<Seq<char>>) -> bool {
    &&& forall|i: int, j: int| 0 <= i < j < tags.len() ==> tags[i] != tags[j]
    &&& forall|k: int| 0 <= k < rs.len() ==> tags.contains(#[trigger] rs[k].tag)
    &&& forall|i: int|
        0 <= i < tags.len() ==> exists|k: int| 0 <= k < rs.len() && rs[k].tag == #[trigger] tags[i]
    &&& forall|i: int, j: int|
        0 <= i < j < tags.len() ==> #[trigger] appears_before(rs, tags[i], tags[j])
}

/// The changelog section groups records by tag in first-seen order: its
/// subsections follow the distinct tags in the order in which each first
/// appears, and each subsection lists exactly the records with its tag, in
/// their input order.
pub proof fn lemma_sections_in_first_seen_order(rs: Seq<ChangesetView>)
    ensures
        in_first_seen_order(rs, first_seen_tags(rs)),
        forall|t: Seq<char>|
            #[trigger] tag_lines(rs, t) == rs.filter(|c: ChangesetView| c.tag == t).map_values(
                |c: ChangesetView| record_line(c),
            ),
    decreases rs.len(),
{
    if rs.len() == 0 {
        assert forall|t: Seq<char>|
            #[trigger] tag_lines(rs, t) == rs.filter(|c: ChangesetView| c.tag == t).map_values(
                |c: ChangesetView| record_line(c),
            ) by {
            reveal(Seq::filter);
            assert(rs.filter(|c: ChangesetView| c.tag == t).map_values(
                |c: ChangesetView| record_line(c),
            ) =~= Seq::empty());
        }
    } else {
        let prev = rs.drop_last();
        let x = rs.last();
        lemma_sections_in_first_seen_order(prev);
        let pt = first_seen_tags(prev);
        let tags = first_seen_tags(rs);
        assert forall|k: int| 0 <= k < prev.len() implies prev[k] == rs[k] by {}
        if pt.contains(x.tag) {
            assert(tags == pt);
            assert forall|k: int| 0 <= k < rs.len() implies tags.contains(#[trigger] rs[k].tag) by {
                if k < prev.len() {
                    assert(prev[k] == rs[k]);
                }
            }
            assert forall|i: int| 0 <= i < tags.len() implies exists|k: int|
                0 <= k < rs.len() && rs[k].tag == #[trigger] tags[i] by {
                let k = choose|k: int| 0 <= k < prev.len() && prev[k].tag == pt[i];
                assert(rs[k] == prev[k]);
            }
            assert forall|i: int, j: int| 0 <= i < j < tags.len() implies #[trigger] appears_before(
                rs,
                tags[i],
                tags[j],
            ) by {
                assert(appears_before(prev, pt[i], pt[j]));
                let k = choose|k: int|
                    0 <= k < prev.len() && prev[k].tag == pt[i] && forall|m: int|
                        0 <= m <= k ==> #[trigger] prev[m].tag != pt[j];
                assert(rs[k] == prev[k]);
                assert forall|m: int| 0 <= m <= k implies #[trigger] rs[m].tag != tags[j] by {
                    assert(rs[m] == prev[m]);
                }
            }
        } else {
            assert(tags == pt.push(x.tag));
            assert forall|i: int, j: int| 0 <= i < j < tags.len() implies tags[i] != tags[j] by {
                if j == tags.len() - 1 {
                    assert(pt[i] == tags[i]);
                    if tags[i] == tags[j] {
                        assert(pt.contains(x.tag));
                    }
                } else {
                    assert(pt[i] != pt[j]);
                }
            }
            assert forall|k: int| 0 <= k < rs.len() implies tags.contains(#[trigger] rs[k].tag) by {
                if k < prev.len() {
                    assert(prev[k] == rs[k]);
                    assert(pt.contains(prev[k].tag));
                    let w = choose|w: int| 0 <= w < pt.len() && pt[w] == prev[k].tag;
                    assert(tags[w] == pt[w]);
                } else {
                    assert(tags[tags.len() - 1] == x.tag);
                }
            }
            assert forall|i: int| 0 <= i < tags.len() implies exists|k: int|
                0 <= k < rs.len() && rs[k].tag == #[trigger] tags[i] by {
                if i < pt.len() {
                    assert(tags[i] == pt[i]);
                    let k = choose|k: int| 0 <= k < prev.len() && prev[k].tag == pt[i];
                    assert(rs[k] == prev[k]);
                } else {
                    assert(rs[rs.len() - 1].tag == tags[i]);
                }
            }
            assert forall|i: int, j: int| 0 <= i < j < tags.len() implies #[trigger] appears_before(
                rs,
                tags[i],
                tags[j],
            ) by {
                assert(tags[i] == pt[i]);
                if j < pt.len() {
                    assert(tags[j] == pt[j]);
                    assert(appears_before(prev, pt[i], pt[j]));
                    let k = choose|k: int|
                        0 <= k < prev.len() && prev[k].tag == pt[i] && forall|m: int|
                            0 <= m <= k ==> #[trigger] prev[m].tag != pt[j];
                    assert(rs[k] == prev[k]);
                    assert forall|m: int| 0 <= m <= k implies #[trigger] rs[m].tag != tags[j] by {
                        assert(rs[m] == prev[m]);
                    }
                } else {
                    let k = choose|k: int| 0 <= k < prev.len() && prev[k].tag == #[trigger] pt[i];
                    assert(rs[k] == prev[k]);
                    assert forall|m: int| 0 <= m <= k implies #[trigger] rs[m].tag != tags[j] by {
                        assert(rs[m] == prev[m]);
                        if rs[m].tag == tags[j] {
                            assert(pt.contains(prev[m].tag));
                        }
                    }
                }
            }
        }
        assert forall|t: Seq<char>|
            #[trigger] tag_lines(rs, t) == rs.filter(|c: ChangesetView| c.tag == t).map_values(
                |c: ChangesetView| record_line(c),
            ) by {
            reveal(Seq::filter);
            let f = rs.filter(|c: ChangesetView| c.tag == t);
            let pf = prev.filter(|c: ChangesetView| c.tag == t);
            assert(tag_lines(prev, t) == pf.map_values(|c: ChangesetView| record_line(c)));
            if x.tag == t {
                assert(f == pf.push(x));
                assert(f.map_values(|c: ChangesetView| record_line(c)) =~= pf.map_values(
                    |c: ChangesetView| record_line(c),
                ).push(record_line(x)));
            } else {
                assert(f == pf);
            }
        }
    }
}

/// A piece of a rendered section that is a tag's subheading.
pub open spec fn is_subheading(piece: Seq<char>) -> bool {
    has_prefix(piece, "\n### "@)
}

/// No record line is a subheading: record lines begin with `-`.
proof fn lemma_tag_lines_have_no_subheading(rs: Seq<ChangesetView>, t: Seq<char>)
    ensures
        tag_lines(rs, t).filter(|p: Seq<char>| is_subheading(p)) == Seq::<Seq<char>>::empty(),
    decreases rs.len(),
{
    reveal(Seq::filter);
    reveal_strlit("\n### ");
    reveal_strlit("- ");
    if rs.len() > 0 {
        lemma_tag_lines_have_no_subheading(rs.drop_last(), t);
        let p = tag_lines(rs.drop_last(), t);
        if rs.last().tag == t {
            let l = record_line(rs.last());
            assert(l[0] == '-');
            assert(!is_subheading(l)) by {
                if is_subheading(l) {
                    assert(l.subrange(0, 5)[0] == "\n### "@[0]);
                }
            }
            assert(p.push(l).drop_last() =~= p);
        }
    }
}

/// The subheadings of the sections for `tags`, in order, are one per tag of `tags`.
proof fn lemma_sections_subheadings(rs: Seq<ChangesetView>, tags: Seq<Seq<char>>)
    ensures
        sections(rs, tags).filter(|p: Seq<char>| is_subheading(p)) == tags.map_values(
            |t: Seq<char>| tag_heading(t),
        ),
    decreases tags.len(),
{
    reveal(Seq::filter);
    broadcast use Seq::filter_distributes_over_add;
    if tags.len() == 0 {
        assert(tags.map_values(|t: Seq<char>| tag_heading(t)) =~= Seq::<Seq<char>>::empty());
    } else {
        let t = tags.last();
        lemma_sections_subheadings(rs, tags.drop_last());
        lemma_tag_lines_have_no_subheading(rs, t);
        reveal_strlit("\n### ");
        let h = tag_heading(t);
        assert(h.subrange(0, 5) =~= "\n### "@);
        assert(is_subheading(h));
        let one = seq![h];
        assert(one.drop_last() =~= Seq::<Seq<char>>::empty());
        assert(one.filter(|p: Seq<char>| is_subheading(p)) =~= one);
        let prev = sections(rs, tags.drop_last());
        assert(sections(rs, tags) == prev + one + tag_lines(rs, t));
        assert(tags.map_values(|t: Seq<char>| tag_heading(t)) =~= tags.drop_last().map_values(
            |t: Seq<char>| tag_heading(t),
        ).push(h));
        assert((prev + one + tag_lines(rs, t)).filter(|p: Seq<char>| is_subheading(p)) == (prev
            + one).filter(|p: Seq<char>| is_subheading(p)) + tag_lines(rs, t).filter(
            |p: Seq<char>| is_subheading(p),
        ));
        assert((prev + one).filter(|p: Seq<char>| is_subheading(p)) == prev.filter(
            |p: Seq<char>| is_subheading(p),
        ) + one.filter(|p: Seq<char>| is_subheading(p)));
        assert(tags.drop_last().map_values(|t: Seq<char>| tag_heading(t)).push(h) =~= tags.drop_last().map_values(
            |t: Seq<char>| tag_heading(t),
        ) + one);
        assert(tags.drop_last().map_values(|t: Seq<char>| tag_heading(t)) + one + Seq::<Seq<char>>::empty()
            =~= tags.drop_last().map_values(|t: Seq<char>| tag_heading(t)) + one);
    }
}

/// The subheadings of a rendered changelog section, taken in order, are one
/// `### <tag>` per distinct tag of the records, in the order in which each
/// tag first appears (the order that `lemma_sections_in_first_seen_order`
/// describes); the version heading is not one of them.
pub proof fn lemma_entry_subheadings_in_first_seen_order(rs: Seq<ChangesetView>, v: Version)
    ensures
        entry_lines(rs, v).filter(|p: Seq<char>| is_subheading(p)) == first_seen_tags(
            rs,
        ).map_values(|t: Seq<char>| tag_heading(t)),
        in_first_seen_order(rs, first_seen_tags(rs)),
{
    reveal(Seq::filter);
    broadcast use Seq::filter_distributes_over_add;
    lemma_sections_in_first_seen_order(rs);
    lemma_sections_subheadings(rs, first_seen_tags(rs));
    reveal_strlit("## [");
    reveal_strlit("\n### ");
    let h = version_heading(v);
    assert(h[0] == '#');
    assert(!is_subheading(h)) by {
        if is_subheading(h) {
            assert(h.subrange(0, 5)[0] == "\n### "@[0]);
        }
    }
    let one = seq![h];
    assert(one.drop_last() =~= Seq::<Seq<char>>::empty());
    assert(one.last() == h);
    assert(Seq::<Seq<char>>::empty().filter(|p: Seq<char>| is_subheading(p)) =~= Seq::<Seq<char>>::empty());
    assert(one.filter(|p: Seq<char>| is_subheading(p)) =~= Seq::<Seq<char>>::empty());
    let rest = sections(rs, first_seen_tags(rs));
    assert((one + rest).filter(|p: Seq<char>| is_subheading(p)) == one.filter(
        |p: Seq<char>| is_subheading(p),
    ) + rest.filter(|p: Seq<char>| is_subheading(p)));
    assert(Seq::<Seq<char>>::empty() + rest.filter(|p: Seq<char>| is_subheading(p)) =~= rest.filter(
        |p: Seq<char>| is_subheading(p),
    ));
}

} // verus!
