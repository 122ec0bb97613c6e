//! The project's version-bearing file and its manifest entry: where the
//! file is, which version it declares, and how that declaration is rewritten.
use vstd::prelude::*;
use crate::error::BumpError;
use crate::record::toml_string_list_at;
use crate::text::{
    chars_of, join, join_strings, occurs_at, occurs_at_exec, pieces_view, replace_first,
    replace_first_exec, split_chars, split_on, string_of, strings_view,
};
use crate::version::{is_digit, parse_version, version_of_text, version_text, Version};

verus! {

/// The length of the run of decimal digits of `s` that starts at `k`.
pub open spec fn digit_run(s: Seq<char>, k: int) -> nat
    decreases s.len() - k,
{
    if 0 <= k < s.len() && is_digit(s[k]) {
        1 + digit_run(s, k + 1)
    } else {
        0
    }
}

/// The text `X.Y.Z` of a quoted version `"X.Y.Z"` (three runs of decimal
/// digits) that begins at position `i` of `s`, if one begins there.
pub open spec fn quoted_version_at(s: Seq<char>, i: int) -> Option<Seq<char>> {
    let a = i + 1;
    let n1 = digit_run(s, a);
    let b = a + n1 + 1;
    let n2 = digit_run(s, b);
    let c = b + n2 + 1;
    let n3 = digit_run(s, c);
    let e = c + n3;
    if 0 <= i && e < s.len() && s[i] == '"' && n1 > 0 && s[a + n1] == '.' && n2 > 0 && s[b
        + n2] == '.' && n3 > 0 && s[e] == '"' {
        Some(s.subrange(a, e))
    } else {
        None
    }
}

/// Relies on `regex::Regex::captures` for the anchored pattern
/// `^"([0-9]+\.[0-9]+\.[0-9]+)"`: the first group of the match at the start
/// of the text, if the text begins with a quoted version.
#[verifier::external_body]
fn quoted_version_prefix(text: &str) -> (r: Option<String>)
    ensures
        quoted_version_at(text@, 0) == (match r {
            Some(v) => Some(v@),
            None => None,
        }),
{
    let re = regex::Regex::new(r#"^"([0-9]+\.[0-9]+\.[0-9]+)""#).unwrap();
    re.captures(text).and_then(|caps| caps.get(1)).map(|m| m.as_str().to_string())
}

/// A space or a tab.
pub open spec fn is_blank(c: char) -> bool {
    c == ' ' || c == '\t'
}

/// The length of the run of spaces and tabs of `s` that starts at `k`.
pub open spec fn blank_run(s: Seq<char>, k: int) -> nat
    decreases s.len() - k,
{
    if 0 <= k < s.len() && is_blank(s[k]) {
        1 + blank_run(s, k + 1)
    } else {
        0
    }
}

/// Where the value of a version assignment begins in `line`: after leading
/// blanks, the identifier `version` or `__version__`, blanks, `=` and blanks;
/// `None` when the line does not begin with such an assignment.
pub open spec fn assignment_value_start(line: Seq<char>) -> Option<int> {
    let a = blank_run(line, 0) as int;
    let b = if occurs_at(line, "__version__"@, a) {
        a + "__version__"@.len()
    } else if occurs_at(line, "version"@, a) {
        a + "version"@.len()
    } else {
        -1
    };
    if b < 0 {
        None
    } else {
        let c = b + blank_run(line, b);
        if c < line.len() && line[c] == '=' {
            Some(c + 1 + blank_run(line, c + 1))
        } else {
            None
        }
    }
}

/// The version text that `line` assigns: `identifier = "X.Y.Z"` with
/// `identifier` one of `version` and `__version__`, blanks allowed around the
/// parts and anything allowed after the quoted version.
pub open spec fn assigned_version(line: Seq<char>) -> Option<Seq<char>> {
    match assignment_value_start(line) {
        Some(d) => quoted_version_at(line.skip(d), 0),
        None => None,
    }
}

/// A line that assigns a version.
pub open spec fn is_version_line(line: Seq<char>) -> bool {
    assigned_version(line) is Some
}

/// The characters of a blank run are blanks, and the run stays inside `s`.
proof fn lemma_blank_run(s: Seq<char>, k: int)
    requires
        0 <= k <= s.len(),
    ensures
        k + blank_run(s, k) <= s.len(),
        forall|j: int| k <= j < k + blank_run(s, k) ==> is_blank(#[trigger] s[j]),
    decreases s.len() - k,
{
    if k < s.len() && is_blank(s[k]) {
        lemma_blank_run(s, k + 1);
    }
}

/// The end of the run of blanks of `s` that starts at `k`.
fn blank_run_end(s: &Vec<char>, k: usize) -> (r: usize)
    requires
        k <= s.len(),
    ensures
        r == k + blank_run(s@, k as int),
{
    let mut j: usize = k;
    while j < s.len() && (s[j] == ' ' || s[j] == '\t')
        invariant
            k <= j <= s.len(),
            blank_run(s@, k as int) == (j - k) + blank_run(s@, j as int),
        decreases s.len() - j,
    {
        j = j + 1;
    }
    j
}

/// Where the value of a version assignment begins in `line`, if it is one.
fn assignment_value_start_exec(line: &Vec<char>) -> (r: Option<usize>)
    ensures
        match assignment_value_start(line@) {
            Some(d) => r == Some(d as usize) && d <= line.len(),
            None => r is None,
        },
{
    proof {
        lemma_blank_run(line@, 0);
    }
    let a = blank_run_end(line, 0);
    let long = chars_of("__version__");
    let short = chars_of("version");
    let b: usize = if occurs_at_exec(line, &long, a) {
        a + long.len()
    } else if occurs_at_exec(line, &short, a) {
        a + short.len()
    } else {
        return None;
    };
    proof {
        lemma_blank_run(line@, b as int);
    }
    let c = blank_run_end(line, b);
    if c < line.len() && line[c] == '=' {
        proof {
            lemma_blank_run(line@, c + 1);
        }
        Some(blank_run_end(line, c + 1))
    } else {
        None
    }
}

/// `i` is the first line that assigns a version.
pub open spec fn is_first_version_line(lines: Seq<Seq<char>>, i: int) -> bool {
    0 <= i < lines.len() && is_version_line(lines[i]) && forall|j: int|
        0 <= j < i ==> !is_version_line(#[trigger] lines[j])
}

/// The first line that assigns a version, if there is one.
pub open spec fn version_line_index(lines: Seq<Seq<char>>) -> Option<int> {
    if exists|i: int| is_first_version_line(lines, i) {
        Some(choose|i: int| is_first_version_line(lines, i))
    } else {
        None
    }
}

/// The lines of a text.
pub open spec fn lines_of(content: Seq<char>) -> Seq<Seq<char>> {
    split_on(content, '\n')
}

/// The version text that the file `content` declares, if it declares one.
pub open spec fn declared_version_text(content: Seq<char>) -> Option<Seq<char>> {
    match version_line_index(lines_of(content)) {
        Some(i) => assigned_version(lines_of(content)[i]),
        None => None,
    }
}

/// The version that the file `content` declares: the quoted version of its
/// first version-assignment line.
pub open spec fn declared_version(content: Seq<char>) -> Result<Version, BumpError> {
    match declared_version_text(content) {
        None => Err(BumpError::VersionMarkerNotFound),
        Some(t) => match version_of_text(t) {
            Some(v) => Ok(v),
            None => Err(BumpError::InvalidVersion),
        },
    }
}

/// A version in double quotes.
pub open spec fn quoted_text(t: Seq<char>) -> Seq<char> {
    "\""@ + t + "\""@
}

/// The file `content` with its version declaration set to `new`: in the first
/// version-assignment line, the first occurrence of the quoted old version
/// becomes the quoted new one; every other line stays as it was.
pub open spec fn patched_content(content: Seq<char>, new: Version) -> Seq<char> {
    let lines = lines_of(content);
    match version_line_index(lines) {
        Some(i) => join(
            lines.update(
                i,
                replace_first(
                    lines[i],
                    quoted_text(assigned_version(lines[i])->0),
                    quoted_text(version_text(new)),
                ),
            ),
            "\n"@,
        ),
        None => content,
    }
}

/// The first line that assigns a version, with the text of its quoted version.
fn find_version_line(lines: &Vec<Vec<char>>) -> (r: Option<(usize, String)>)
    ensures
        match version_line_index(pieces_view(lines@)) {
            Some(i) => r matches Some((k, t)) && k == i && assigned_version(
                pieces_view(lines@)[i],
            ) == Some(t@),
            None => r is None,
        },
{
    let ghost ls = pieces_view(lines@);
    let mut i: usize = 0;
    while i < lines.len()
        invariant
            i <= lines.len(),
            ls == pieces_view(lines@),
            forall|j: int| 0 <= j < i ==> !is_version_line(#[trigger] ls[j]),
        decreases lines.len() - i,
    {
        assert(ls[i as int] == lines@[i as int]@);
        if let Some(d) = assignment_value_start_exec(&lines[i]) {
            let l = &lines[i];
            let mut value: Vec<char> = Vec::new();
            let mut k: usize = d;
            while k < l.len()
                invariant
                    d <= k <= l.len(),
                    value@ == l@.subrange(d as int, k as int),
                decreases l.len() - k,
            {
                value.push(l[k]);
                assert(value@ =~= l@.subrange(d as int, k + 1));
                k = k + 1;
            }
            assert(value@ =~= l@.skip(d as int));
            let text = string_of(&value);
            match quoted_version_prefix(text.as_str()) {
                Some(t) => {
                    proof {
                        assert(is_first_version_line(ls, i as int));
                        let c = choose|c: int| is_first_version_line(ls, c);
                        if c < i {
                            assert(!is_version_line(ls[c]));
                        } else if c > i {
                            assert(!is_version_line(ls[i as int]));
                        }
                    }
                    return Some((i, t));
                },
                None => {},
            }
        }
        i = i + 1;
    }
    assert(!exists|c: int| is_first_version_line(ls, c));
    None
}

/// Reads the version that the version-bearing file declares: the quoted
/// `X.Y.Z` of its first line that assigns `version` or `__version__`.
pub fn find_version(content: &str) -> (r: Result<Version, BumpError>)
    ensures
        r == declared_version(content@),
{
    let cs = chars_of(content);
    let lines = split_chars(&cs, '\n');
    match find_version_line(&lines) {
        None => Err(BumpError::VersionMarkerNotFound),
        Some((_, t)) => match parse_version(t.as_str()) {
            Some(v) => Ok(v),
            None => Err(BumpError::InvalidVersion),
        },
    }
}

/// Rewrites the version declaration of the version-bearing file to `new`,
/// within its first version-assignment line only.
pub fn update_version_text(content: &str, new: &Version) -> (r: Result<String, BumpError>)
    ensures
        match declared_version_text(content@) {
            None => r == Err::<String, BumpError>(BumpError::VersionMarkerNotFound),
            Some(_) => r matches Ok(s) && s@ == patched_content(content@, *new),
        },
{
    let cs = chars_of(content);
    let lines = split_chars(&cs, '\n');
    match find_version_line(&lines) {
        None => Err(BumpError::VersionMarkerNotFound),
        Some((i, old)) => {
            let mut from: Vec<char> = vec!['"'];
            let mut oc = chars_of(old.as_str());
            from.append(&mut oc);
            from.push('"');
            let mut to: Vec<char> = vec!['"'];
            let nt = new.to_text();
            let mut nc = chars_of(nt.as_str());
            to.append(&mut nc);
            to.push('"');
            proof {
                reveal_strlit("\"");
                assert(from@ =~= quoted_text(old@));
                assert(to@ =~= quoted_text(version_text(*new)));
            }
            let replaced = replace_first_exec(&lines[i], &from, &to);
            let mut out: Vec<String> = Vec::new();
            let mut k: usize = 0;
            let ghost target = pieces_view(lines@).update(i as int, replaced@);
            while k < lines.len()
                invariant
                    k <= lines.len(),
                    i < lines.len(),
                    target == pieces_view(lines@).update(i as int, replaced@),
                    strings_view(out@) == target.take(k as int),
                decreases lines.len() - k,
            {
                let piece = if k == i {
                    string_of(&replaced)
                } else {
                    string_of(&lines[k])
                };
                assert(pieces_view(lines@)[k as int] == lines@[k as int]@);
                assert(piece@ == target[k as int]);
                let ghost before = strings_view(out@);
                out.push(piece);
                assert(strings_view(out@) =~= before.push(piece@));
                assert(strings_view(out@) =~= target.take(k + 1));
                k = k + 1;
            }
            assert(target.take(lines.len() as int) =~= target);
            Ok(join_strings(&out, "\n"))
        },
    }
}

/// The first string of the array `tool.sempyver.version_path` of the
/// project manifest, if it is there and not empty.
pub open spec fn manifest_version_path(manifest: Seq<char>) -> Option<Seq<char>> {
    match toml_string_list_at(manifest, seq!["tool"@, "sempyver"@, "version_path"@]) {
        Some(paths) => if paths.len() > 0 && paths[0].len() > 0 {
            Some(paths[0])
        } else {
            None
        },
        None => None,
    }
}

/// Finds the path of the version-bearing file in the project manifest
/// (`pyproject.toml`): the first entry of `version_path` under
/// `[tool.sempyver]`.
pub fn find_version_in_file(manifest: &str) -> (r: Result<String, BumpError>)
    ensures
        match manifest_version_path(manifest@) {
            Some(p) => r matches Ok(s) && s@ == p,
            None => r == Err::<String, BumpError>(BumpError::Configuration),
        },
{
    let path = vec!["tool".to_owned(), "sempyver".to_owned(), "version_path".to_owned()];
    assert(strings_view(path@) =~= seq!["tool"@, "sempyver"@, "version_path"@]);
    match crate::record::toml_string_list(manifest, &path) {
        Some(paths) => {
            if paths.len() > 0 && !paths[0].as_str().is_empty() {
                assert(strings_view(paths@)[0] == paths@[0]@);
                Ok(paths[0].clone())
            } else {
                assert(paths.len() > 0 ==> strings_view(paths@)[0] == paths@[0]@);
                Err(BumpError::Configuration)
            }
        },
        None => Err(BumpError::Configuration),
    }
}

} // verus!
