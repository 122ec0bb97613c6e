//! The pending-record file: its TOML layout, how a record is written to it
//! and how it is read back.
use vstd::prelude::*;
use crate::changeset::{Changeset, ChangesetView};
use crate::error::BumpError;
use crate::text::{
    append_text, chars_of, join, join_strings, occurs_at, occurs_at_exec,
    string_of, strings_view,
};
use crate::version::{class_name, class_of_name, parse_version, version_of_text, version_text, BumpClass};

verus! {

/// The string at `path` (a chain of table keys) in the TOML document `text`:
/// `None` when the text is no TOML document, a key is missing, or the value
/// there is not a string.
pub uninterp spec fn toml_string_at(text: Seq<char>, path: Seq<Seq<char>>) -> Option<Seq<char>>;

/// The array of strings at `path` in the TOML document `text`: `None` when
/// the text is no TOML document, a key is missing, the value there is not an
/// array, or an element of it is not a string.
pub uninterp spec fn toml_string_list_at(text: Seq<char>, path: Seq<Seq<char>>) -> Option<
    Seq<Seq<char>>,
>;

/// Relies on `toml::Value`'s `FromStr` (a TOML document), `Value::get` with a
/// string key and `Value::as_str`: the string value found along `path`.
#[verifier::external_body]
fn toml_string(text: &str, path: &Vec<String>) -> (r: Option<String>)
    ensures
        toml_string_at(text@, strings_view(path@)) == (match r {
            Some(s) => Some(s@),
            None => None,
        }),
{
    let doc = text.parse::<toml::Value>().ok()?;
    let mut cur = &doc;
    for key in path.iter() {
        cur = cur.get(key.as_str())?;
    }
    cur.as_str().map(|s| s.to_string())
}

/// Relies on `toml::Value`'s `FromStr` (a TOML document), `Value::get` with a
/// string key, `Value::as_array` and `Value::as_str`: the array of strings
/// found along `path`.
#[verifier::external_body]
pub(crate) fn toml_string_list(text: &str, path: &Vec<String>) -> (r: Option<Vec<String>>)
    ensures
        toml_string_list_at(text@, strings_view(path@)) == (match r {
            Some(v) => Some(strings_view(v@)),
            None => None,
        }),
{
    let doc = text.parse::<toml::Value>().ok()?;
    let mut cur = &doc;
    for key in path.iter() {
        cur = cur.get(key.as_str())?;
    }
    cur.as_array()?.iter().map(|item| item.as_str().map(|s| s.to_string())).collect()
}

/// The header section of a record file.
#[derive(Clone, Debug, PartialEq, Eq)]
pub struct ChangesetInfo {
    pub change_type: String,
    pub tag: String,
    pub version: String,
}

/// The body section of a record file.
#[derive(Clone, Debug, PartialEq, Eq)]
pub struct ChangeDetails {
    pub modules: Vec<String>,
    pub description: String,
}

/// The fields of a record file as text, before they are checked.
#[derive(Clone, Debug, PartialEq, Eq)]
pub struct RawChangeset {
    pub changeset: ChangesetInfo,
    pub changes: ChangeDetails,
}

/// The fields of a record file as plain values:
/// (change type, tag, version, modules, description).
pub type RawView = (Seq<char>, Seq<char>, Seq<char>, Seq<Seq<char>>, Seq<char>);

impl View for RawChangeset {
    type V = RawView;

    open spec fn view(&self) -> RawView {
        (
            self.changeset.change_type@,
            self.changeset.tag@,
            self.changeset.version@,
            strings_view(self.changes.modules@),
            self.changes.description@,
        )
    }
}

/// A two-key path `section.key`.
pub open spec fn key_path(section: Seq<char>, key: Seq<char>) -> Seq<Seq<char>> {
    seq![section, key]
}

/// The fields that the TOML document `text` holds at the places of a record file.
pub open spec fn raw_fields(text: Seq<char>) -> Option<RawView> {
    let ct = toml_string_at(text, key_path("changeset"@, "change_type"@));
    let tag = toml_string_at(text, key_path("changeset"@, "tag"@));
    let ver = toml_string_at(text, key_path("changeset"@, "version"@));
    let mods = toml_string_list_at(text, key_path("changes"@, "modules"@));
    let desc = toml_string_at(text, key_path("changes"@, "description"@));
    if ct is Some && tag is Some && ver is Some && mods is Some && desc is Some {
        Some((ct->0, tag->0, ver->0, mods->0, desc->0))
    } else {
        None
    }
}

/// The record with id `id` that checked fields denote: the change type names
/// a bump class, the version parses, the tag and the description are not empty.
pub open spec fn record_of_fields(id: Seq<char>, f: RawView) -> Option<ChangesetView> {
    if class_of_name(f.0) is Some && version_of_text(f.2) is Some && f.1.len() > 0 && f.4.len() > 0 {
        Some(
            ChangesetView {
                name: id,
                change: class_of_name(f.0)->0,
                modules: f.3,
                tag: f.1,
                message: f.4,
                version: version_of_text(f.2)->0,
            },
        )
    } else {
        None
    }
}

/// The record that the file text denotes, if it is well formed.
pub open spec fn record_of_text(id: Seq<char>, text: Seq<char>) -> Option<ChangesetView> {
    match raw_fields(text) {
        Some(f) => record_of_fields(id, f),
        None => None,
    }
}

/// The path `section.key` as strings.
fn key_path_exec(section: &str, key: &str) -> (r: Vec<String>)
    ensures
        strings_view(r@) == key_path(section@, key@),
{
    let r = vec![section.to_owned(), key.to_owned()];
    assert(strings_view(r@) =~= key_path(section@, key@));
    r
}

impl RawChangeset {
    /// Reads the fields of a record file from its TOML text.
    pub fn from_toml(text: &str) -> (r: Option<RawChangeset>)
        ensures
            raw_fields(text@) == (match r {
                Some(raw) => Some(raw@),
                None => None,
            }),
    {
        let ct = toml_string(text, &key_path_exec("changeset", "change_type"));
        let tag = toml_string(text, &key_path_exec("changeset", "tag"));
        let ver = toml_string(text, &key_path_exec("changeset", "version"));
        let mods = toml_string_list(text, &key_path_exec("changes", "modules"));
        let desc = toml_string(text, &key_path_exec("changes", "description"));
        match (ct, tag, ver, mods, desc) {
            (Some(change_type), Some(tag), Some(version), Some(modules), Some(description)) => {
                Some(
                    RawChangeset {
                        changeset: ChangesetInfo { change_type, tag, version },
                        changes: ChangeDetails { modules, description },
                    },
                )
            },
            _ => None,
        }
    }
}

/// Checks the fields of a record file and builds the record with id `id`;
/// a record with a missing or ill-typed field is malformed.
pub fn changeset_from_raw(id: String, raw: RawChangeset) -> (r: Result<Changeset, BumpError>)
    ensures
        match record_of_fields(id@, raw@) {
            Some(c) => r matches Ok(x) && x@ == c,
            None => r == Err::<Changeset, BumpError>(BumpError::MalformedRecord { id }),
        },
{
    let change = BumpClass::from_name(raw.changeset.change_type.as_str());
    let version = parse_version(raw.changeset.version.as_str());
    let tag_empty = raw.changeset.tag.as_str().is_empty();
    let desc_empty = raw.changes.description.as_str().is_empty();
    match (change, version) {
        (Some(change), Some(version)) => {
            if tag_empty || desc_empty {
                Err(BumpError::MalformedRecord { id })
            } else {
                Ok(
                    Changeset::new(
                        id,
                        change,
                        raw.changes.modules,
                        raw.changeset.tag,
                        raw.changes.description,
                        version,
                    ),
                )
            }
        },
        _ => Err(BumpError::MalformedRecord { id }),
    }
}

/// Reads the record with id `id` from the text of its file.
pub fn parse_changeset(id: String, text: &str) -> (r: Result<Changeset, BumpError>)
    ensures
        match record_of_text(id@, text@) {
            Some(c) => r matches Ok(x) && x@ == c,
            None => r == Err::<Changeset, BumpError>(BumpError::MalformedRecord { id }),
        },
{
    match RawChangeset::from_toml(text) {
        Some(raw) => changeset_from_raw(id, raw),
        None => Err(BumpError::MalformedRecord { id }),
    }
}

/// The hexadecimal digit of `d` (below 16).
pub open spec fn hex_digit(d: nat) -> char {
    if d < 10 {
        ((d + ('0' as nat)) as char)
    } else {
        ((d - 10 + ('a' as nat)) as char)
    }
}

/// How one character is written inside a TOML basic string: quote and
/// backslash are escaped, tab, newline and carriage return by their short
/// escapes, other control characters as `\u00XX`.
pub open spec fn escape_char(c: char) -> Seq<char> {
    if c == '"' {
        seq!['\\', '"']
    } else if c == '\\' {
        seq!['\\', '\\']
    } else if c == '\n' {
        seq!['\\', 'n']
    } else if c == '\t' {
        seq!['\\', 't']
    } else if c == '\r' {
        seq!['\\', 'r']
    } else if (c as u64) < 32 || (c as u64) == 127 {
        seq!['\\', 'u', '0', '0', hex_digit(((c as u64) / 16) as nat), hex_digit(((c as u64) % 16) as nat)]
    } else {
        seq![c]
    }
}

/// The text `s` escaped for a TOML basic string.
pub open spec fn escaped(s: Seq<char>) -> Seq<char>
    decreases s.len(),
{
    if s.len() == 0 {
        Seq::empty()
    } else {
        escaped(s.drop_last()) + escape_char(s.last())
    }
}

/// `s` as a TOML basic string, quotes included.
pub open spec fn quoted(s: Seq<char>) -> Seq<char> {
    "\""@ + escaped(s) + "\""@
}

/// The strings as a TOML array of basic strings.
pub open spec fn quoted_list(v: Seq<Seq<char>>) -> Seq<char> {
    "["@ + join(v.map_values(|m: Seq<char>| quoted(m)), ", "@) + "]"@
}

/// The text of the file that holds record `c`.
pub open spec fn record_text(c: ChangesetView) -> Seq<char> {
    "[changeset]\nchange_type = "@ + quoted(class_name(c.change)) + "\ntag = "@ + quoted(c.tag)
        + "\nversion = "@ + quoted(version_text(c.version)) + "\n\n[changes]\nmodules = "@
        + quoted_list(c.modules) + "\ndescription = "@ + quoted(c.message) + "\n"@
}

/// The hexadecimal digit of `d`.
fn hex_digit_exec(d: u32) -> (r: char)
    requires
        d < 16,
    ensures
        r == hex_digit(d as nat),
{
    if d < 10 {
        ((d as u8) + 48u8) as char
    } else {
        ((d as u8) + 87u8) as char
    }
}

/// `s` as a TOML basic string, quotes included.
pub fn quote_toml(s: &str) -> (r: String)
    ensures
        r@ == quoted(s@),
{
    let cs = chars_of(s);
    let mut out: Vec<char> = Vec::new();
    out.push('"');
    let mut i: usize = 0;
    while i < cs.len()
        invariant
            i <= cs.len(),
            cs@ == s@,
            out@ == seq!['"'] + escaped(cs@.take(i as int)),
        decreases cs.len() - i,
    {
        let c = cs[i];
        proof {
            assert(cs@.take(i + 1).drop_last() =~= cs@.take(i as int));
        }
        let ghost before = out@;
        if c == '"' {
            out.push('\\');
            out.push('"');
        } else if c == '\\' {
            out.push('\\');
            out.push('\\');
        } else if c == '\n' {
            out.push('\\');
            out.push('n');
        } else if c == '\t' {
            out.push('\\');
            out.push('t');
        } else if c == '\r' {
            out.push('\\');
            out.push('r');
        } else if (c as u64) < 32 || (c as u64) == 127 {
            out.push('\\');
            out.push('u');
            out.push('0');
            out.push('0');
            let code: u64 = c as u64;
            out.push(hex_digit_exec((code / 16) as u32));
            out.push(hex_digit_exec((code % 16) as u32));
        } else {
            out.push(c);
        }
        assert(out@ =~= before + escape_char(c));
        i = i + 1;
    }
    out.push('"');
    assert(cs@.take(cs.len() as int) =~= cs@);
    let r = string_of(&out);
    proof {
        reveal_strlit("\"");
        assert(r@ =~= quoted(s@));
    }
    r
}

/// The modules as a TOML array of basic strings.
fn quote_toml_list(v: &Vec<String>) -> (r: String)
    ensures
        r@ == quoted_list(strings_view(v@)),
{
    let mut items: Vec<String> = Vec::new();
    let mut i: usize = 0;
    while i < v.len()
        invariant
            i <= v.len(),
            strings_view(items@) == strings_view(v@).take(i as int).map_values(
                |m: Seq<char>| quoted(m),
            ),
        decreases v.len() - i,
    {
        let q = quote_toml(v[i].as_str());
        let ghost before = strings_view(items@);
        items.push(q);
        assert(strings_view(items@) =~= before.push(q@));
        assert(strings_view(v@)[i as int] == v@[i as int]@);
        assert(strings_view(items@) =~= strings_view(v@).take(i + 1).map_values(
            |m: Seq<char>| quoted(m),
        ));
        i = i + 1;
    }
    assert(strings_view(v@).take(v.len() as int) =~= strings_view(v@));
    let mut r = "[".to_owned();
    let joined = join_strings(&items, ", ");
    append_text(&mut r, joined.as_str());
    append_text(&mut r, "]");
    r
}

/// The text of the file that holds `changeset`: a `[changeset]` section
/// with its bump class, tag and version, then a `[changes]` section with its
/// modules and description.
pub fn changeset_file_text(changeset: &Changeset) -> (r: String)
    ensures
        r@ == record_text(changeset@),
{
    let mut r = "[changeset]\nchange_type = ".to_owned();
    append_text(&mut r, quote_toml(changeset.change.name()).as_str());
    append_text(&mut r, "\ntag = ");
    append_text(&mut r, quote_toml(changeset.tag.as_str()).as_str());
    append_text(&mut r, "\nversion = ");
    append_text(&mut r, quote_toml(changeset.version.to_text().as_str()).as_str());
    append_text(&mut r, "\n\n[changes]\nmodules = ");
    append_text(&mut r, quote_toml_list(&changeset.modules).as_str());
    append_text(&mut r, "\ndescription = ");
    append_text(&mut r, quote_toml(changeset.message.as_str()).as_str());
    append_text(&mut r, "\n");
    r
}

/// The extension of a record file.
pub open spec fn record_extension() -> Seq<char> {
    ".toml"@
}

/// The name of the file that holds the record with id `id`.
pub fn changeset_file_name(id: &str) -> (r: String)
    ensures
        r@ == id@ + record_extension(),
{
    let mut r = id.to_owned();
    append_text(&mut r, ".toml");
    r
}

/// The id of the record held in the file named `file_name`: the name
/// without its `.toml` extension, which must leave a non-empty id; `None` for
/// a file of another kind.
pub open spec fn record_id(file_name: Seq<char>) -> Option<Seq<char>> {
    let n = file_name.len() - record_extension().len();
    if file_name.len() > record_extension().len() && occurs_at(file_name, record_extension(), n) {
        Some(file_name.take(n))
    } else {
        None
    }
}

/// The id of the record held in the file named `file_name`, if it is a record file.
pub fn record_id_of(file_name: &str) -> (r: Option<String>)
    ensures
        match r {
            Some(id) => record_id(file_name@) == Some(id@),
            None => record_id(file_name@) is None,
        },
{
    let cs = chars_of(file_name);
    let ext = chars_of(".toml");
    if cs.len() <= ext.len() {
        return None;
    }
    let n = cs.len() - ext.len();
    if occurs_at_exec(&cs, &ext, n) {
        let mut head: Vec<char> = Vec::new();
        let mut i: usize = 0;
        while i < n
            invariant
                i <= n,
                n <= cs.len(),
                head@ == cs@.take(i as int),
            decreases n - i,
        {
            head.push(cs[i]);
            assert(head@ =~= cs@.take(i + 1));
            i = i + 1;
        }
        Some(string_of(&head))
    } else {
        None
    }
}

/// Reads one pending-record file: its id comes from its name, its fields
/// from its text. A file that is not a record file gives `None`.
pub fn process_file(file_name: &str, text: &str) -> (r: Option<Result<Changeset, BumpError>>)
    ensures
        match record_id(file_name@) {
            None => r is None,
            Some(id) => match record_of_text(id, text@) {
                Some(c) => r matches Some(Ok(x)) && x@ == c,
                None => r matches Some(Err(BumpError::MalformedRecord { id: e })) && e@ == id,
            },
        },
{
    match record_id_of(file_name) {
        None => None,
        Some(id) => Some(parse_changeset(id, text)),
    }
}

/// What a record file is written with reads back as the same record: the
/// file named after the record's id gives back that id, and the fields that
/// the file holds (bump class name, tag, version text, modules, description)
/// give back the record, whenever its id, tag and description are not empty.
pub proof fn lemma_record_round_trip(c: ChangesetView)
    requires
        c.name.len() > 0,
        c.tag.len() > 0,
        c.message.len() > 0,
    ensures
        record_id(c.name + record_extension()) == Some(c.name),
        record_of_fields(
            c.name,
            (class_name(c.change), c.tag, version_text(c.version), c.modules, c.message),
        ) == Some(c),
{
    let f = c.name + record_extension();
    assert(f.subrange(c.name.len() as int, f.len() as int) =~= record_extension());
    assert(f.take(c.name.len() as int) =~= c.name);
    crate::version::lemma_class_name_round_trip(c.change);
    crate::version::lemma_version_text_round_trip(c.version);
}

} // verus!
