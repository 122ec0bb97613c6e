//! A short summary of a unified diff: how many files, added and removed
//! lines it has, and its lines that add definitions.
use vstd::prelude::*;
use crate::text::{
    append_text, chars_of, decimal, decimal_chars, has_prefix, occurs_at, occurs_at_exec,
    occurs_in, pieces_view, split_chars, split_on, string_of, contains, starts_with,
};

verus! {

/// The lines of `s` as `str::lines` yields them: split at `\n`, a `\r`
/// before a `\n` dropped, no empty line after a final `\n`.
pub open spec fn text_lines(s: Seq<char>) -> Seq<Seq<char>> {
    let p = split_on(s, '\n');
    let body = p.drop_last().map_values(
        |l: Seq<char>|
            if l.len() > 0 && l.last() == '\r' {
                l.drop_last()
            } else {
                l
            },
    );
    if p.last().len() == 0 {
        body
    } else {
        body.push(p.last())
    }
}

/// `s` ends with `p`.
pub open spec fn has_suffix(s: Seq<char>, p: Seq<char>) -> bool {
    p.len() <= s.len() && occurs_at(s, p, s.len() - p.len())
}

/// A line that names a file of the diff (`+++` or `---`).
pub open spec fn is_file_header(l: Seq<char>) -> bool {
    has_prefix(l, "+++"@) || has_prefix(l, "---"@)
}

/// One for a file header that names a real file (not `/dev/null`).
pub open spec fn file_mark(l: Seq<char>) -> nat {
    if is_file_header(l) && !has_suffix(l, "/dev/null"@) {
        1
    } else {
        0
    }
}

/// One for an added line.
pub open spec fn added_mark(l: Seq<char>) -> nat {
    if !is_file_header(l) && has_prefix(l, "+"@) {
        1
    } else {
        0
    }
}

/// One for a removed line.
pub open spec fn removed_mark(l: Seq<char>) -> nat {
    if !is_file_header(l) && !has_prefix(l, "+"@) && has_prefix(l, "-"@) {
        1
    } else {
        0
    }
}

/// An added line that holds a definition (`fn `, `class `, `def `, `struct `, `impl `).
pub open spec fn is_key_line(l: Seq<char>) -> bool {
    has_prefix(l, "+"@) && (occurs_in(l, "fn "@) || occurs_in(l, "class "@) || occurs_in(
        l,
        "def "@,
    ) || occurs_in(l, "struct "@) || occurs_in(l, "impl "@))
}

/// The sum of `f` over the lines.
pub open spec fn total(lines: Seq<Seq<char>>, f: spec_fn(Seq<char>) -> nat) -> nat
    decreases lines.len(),
{
    if lines.len() == 0 {
        0
    } else {
        total(lines.drop_last(), f) + f(lines.last())
    }
}

/// The key lines without their leading `+`, each followed by a newline.
pub open spec fn key_text(lines: Seq<Seq<char>>) -> Seq<char>
    decreases lines.len(),
{
    if lines.len() == 0 {
        Seq::empty()
    } else {
        key_text(lines.drop_last()) + (if is_key_line(lines.last()) {
            lines.last().drop_first().push('\n')
        } else {
            Seq::empty()
        })
    }
}

/// The summary of a diff: its key lines, or, when it has none, the counts in words.
pub open spec fn summary_text(lines: Seq<Seq<char>>) -> Seq<char> {
    let k = key_text(lines);
    if k.len() > 0 {
        k
    } else {
        decimal(total(lines, |l: Seq<char>| file_mark(l)) / 2) + " files changed, "@ + decimal(
            total(lines, |l: Seq<char>| added_mark(l)),
        ) + " insertions(+), "@ + decimal(total(lines, |l: Seq<char>| removed_mark(l)))
            + " deletions(-)"@
    }
}

/// The lines of a text as `str::lines` yields them.
pub(crate) fn text_lines_exec(s: &str) -> (r: Vec<Vec<char>>)
    ensures
        pieces_view(r@) == text_lines(s@),
        r.len() <= s@.len() + 1,
{
    let cs = chars_of(s);
    let pieces = split_chars(&cs, '\n');
    proof {
        crate::text::lemma_split_on_nonempty(s@, '\n');
        lemma_split_on_len(s@, '\n');
    }
    let ghost p = pieces_view(pieces@);
    let n = pieces.len() - 1;
    let mut out: Vec<Vec<char>> = Vec::new();
    let mut i: usize = 0;
    while i < n
        invariant
            i <= n,
            n + 1 == pieces.len(),
            p == pieces_view(pieces@),
            pieces_view(out@) == p.drop_last().take(i as int).map_values(
                |l: Seq<char>|
                    if l.len() > 0 && l.last() == '\r' {
                        l.drop_last()
                    } else {
                        l
                    },
            ),
        decreases n - i,
    {
        let piece = &pieces[i];
        assert(p[i as int] == piece@);
        let mut line: Vec<char> = Vec::new();
        let len = piece.len();
        let keep: usize = if len > 0 && piece[len - 1] == '\r' {
            len - 1
        } else {
            len
        };
        let mut k: usize = 0;
        while k < keep
            invariant
                k <= keep,
                keep <= piece.len(),
                line@ == piece@.take(k as int),
            decreases keep - k,
        {
            line.push(piece[k]);
            assert(line@ =~= piece@.take(k + 1));
            k = k + 1;
        }
        let ghost before = pieces_view(out@);
        proof {
            if len > 0 && piece@.last() == '\r' {
                assert(line@ =~= piece@.drop_last());
            } else {
                assert(line@ =~= piece@);
            }
        }
        out.push(line);
        assert(pieces_view(out@) =~= before.push(line@));
        assert(pieces_view(out@) =~= p.drop_last().take(i + 1).map_values(
            |l: Seq<char>|
                if l.len() > 0 && l.last() == '\r' {
                    l.drop_last()
                } else {
                    l
                },
        ));
        i = i + 1;
    }
    assert(p.drop_last().take(n as int) =~= p.drop_last());
    assert(p.last() == pieces@[n as int]@);
    if pieces[n].len() > 0 {
        let last = pieces[n].clone();
        let ghost before = pieces_view(out@);
        out.push(last);
        assert(pieces_view(out@) =~= before.push(last@));
    }
    out
}

/// There are at most as many pieces as characters, plus one.
pub proof fn lemma_split_on_len(s: Seq<char>, sep: char)
    ensures
        split_on(s, sep).len() <= s.len() + 1,
    decreases s.len(),
{
    if s.len() > 0 {
        lemma_split_on_len(s.drop_last(), sep);
        crate::text::lemma_split_on_nonempty(s.drop_last(), sep);
    }
}

/// Summarises a unified diff: (files changed, lines added, lines removed,
/// summary). A file counts once for its `---` and `+++` headers together
/// (headers naming `/dev/null` do not count); the summary is the added lines
/// that define something, without their `+`, or, if there are none, the
/// three counts in words.
pub fn extract_diff_summary(diff: &str) -> (r: (u32, u32, u32, String))
    requires
        diff@.len() < u32::MAX,
    ensures
        r.0 == total(text_lines(diff@), |l: Seq<char>| file_mark(l)) / 2,
        r.1 == total(text_lines(diff@), |l: Seq<char>| added_mark(l)),
        r.2 == total(text_lines(diff@), |l: Seq<char>| removed_mark(l)),
        r.3@ == summary_text(text_lines(diff@)),
{
    let lines = text_lines_exec(diff);
    let ghost ls = pieces_view(lines@);
    let mut files_changed: u32 = 0;
    let mut lines_added: u32 = 0;
    let mut lines_removed: u32 = 0;
    let mut summary: Vec<char> = Vec::new();
    let mut i: usize = 0;
    while i < lines.len()
        invariant
            i <= lines.len(),
            lines.len() <= diff@.len() + 1,
            diff@.len() < u32::MAX,
            ls == pieces_view(lines@),
            files_changed == total(ls.take(i as int), |l: Seq<char>| file_mark(l)),
            lines_added == total(ls.take(i as int), |l: Seq<char>| added_mark(l)),
            lines_removed == total(ls.take(i as int), |l: Seq<char>| removed_mark(l)),
            files_changed <= i,
            lines_added <= i,
            lines_removed <= i,
            summary@ == key_text(ls.take(i as int)),
        decreases lines.len() - i,
    {
        let line = &lines[i];
        proof {
            assert(ls[i as int] == line@);
            assert(ls.take(i + 1).drop_last() =~= ls.take(i as int));
            assert(ls.take(i + 1).last() == line@);
        }
        let header = starts_with(line, "+++") || starts_with(line, "---");
        let plus = starts_with(line, "+");
        if header {
            let null = chars_of("/dev/null");
            let ends_null = null.len() <= line.len() && occurs_at_exec(
                line,
                &null,
                line.len() - null.len(),
            );
            if !ends_null {
                files_changed = files_changed + 1;
            }
        } else if plus {
            lines_added = lines_added + 1;
        } else if starts_with(line, "-") {
            lines_removed = lines_removed + 1;
        }
        let key = plus && (contains(line, "fn ") || contains(line, "class ") || contains(
            line,
            "def ",
        ) || contains(line, "struct ") || contains(line, "impl "));
        let ghost before = summary@;
        if key {
            let mut k: usize = 1;
            proof {
                reveal_strlit("+");
            }
            while k < line.len()
                invariant
                    1 <= k <= line.len(),
                    summary@ == before + line@.subrange(1, k as int),
                decreases line.len() - k,
            {
                summary.push(line[k]);
                assert(summary@ =~= before + line@.subrange(1, k + 1));
                k = k + 1;
            }
            summary.push('\n');
            assert(line@.subrange(1, line.len() as int) =~= line@.drop_first());
            assert(summary@ =~= before + line@.drop_first().push('\n'));
        } else {
            assert(summary@ =~= before + Seq::<char>::empty());
        }
        i = i + 1;
    }
    assert(ls.take(lines.len() as int) =~= ls);
    let files = files_changed / 2;
    if summary.len() == 0 {
        let mut text: Vec<char> = decimal_chars(files);
        let mut s = string_of(&text);
        append_text(&mut s, " files changed, ");
        append_text(&mut s, string_of(&decimal_chars(lines_added)).as_str());
        append_text(&mut s, " insertions(+), ");
        append_text(&mut s, string_of(&decimal_chars(lines_removed)).as_str());
        append_text(&mut s, " deletions(-)");
        (files, lines_added, lines_removed, s)
    } else {
        (files, lines_added, lines_removed, string_of(&summary))
    }
}

} // verus!
