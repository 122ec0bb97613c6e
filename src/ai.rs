//! The pure parts of drafting a record's description with a language-model
//! service: which service, the configuration value, the prompt sent, and
//! how the reply is read and cleaned.
use vstd::prelude::*;
use crate::diff::{extract_diff_summary, summary_text, text_lines, text_lines_exec};
use crate::text::{append_text, chars_of, pieces_view, string_of, text_eq};

verus! {

/// The language-model services that can draft a description.
#[derive(Clone, Copy, Debug, PartialEq, Eq, Structural)]
pub enum AIProvider {
    OpenAI,
    Gemini,
}

/// The text `s` in lower case, as `str::to_lowercase` gives it.
pub uninterp spec fn lowercase_of(s: Seq<char>) -> Seq<char>;

/// Relies on `str::to_lowercase`: the lower-case form depends on the text alone.
#[verifier::external_body]
fn lowercase(s: &str) -> (r: String)
    ensures
        r@ == lowercase_of(s@),
{
    s.to_lowercase()
}

/// The error for a service name that is not supported.
pub open spec fn unsupported_provider(name: Seq<char>) -> Seq<char> {
    "Unsupported AI provider: "@ + name
}

impl AIProvider {
    /// The service named `name`, in any letter case: `openai` or `gemini`.
    pub fn from_name(name: &str) -> (r: Result<AIProvider, String>)
        ensures
            lowercase_of(name@) == "openai"@ ==> r == Ok::<AIProvider, String>(AIProvider::OpenAI),
            lowercase_of(name@) == "gemini"@ ==> r == Ok::<AIProvider, String>(AIProvider::Gemini),
            lowercase_of(name@) != "openai"@ && lowercase_of(name@) != "gemini"@ ==> (r matches Err(
                e,
            ) && e@ == unsupported_provider(name@)),
    {
        let lower = lowercase(name);
        let lc = chars_of(lower.as_str());
        proof {
            reveal_strlit("openai");
            reveal_strlit("gemini");
            assert("openai"@[0] != "gemini"@[0]);
        }
        if text_eq(&lc, "openai") {
            Ok(AIProvider::OpenAI)
        } else if text_eq(&lc, "gemini") {
            Ok(AIProvider::Gemini)
        } else {
            let mut e = "Unsupported AI provider: ".to_owned();
            append_text(&mut e, name);
            Err(e)
        }
    }

    /// Where the reply text sits in the service's JSON answer, as a JSON pointer.
    pub fn reply_pointer(&self) -> (r: &'static str)
        ensures
            r@ == reply_pointer_of(*self),
    {
        match self {
            AIProvider::OpenAI => "/choices/0/message/content",
            AIProvider::Gemini => "/candidates/0/content/parts/0/text",
        }
    }
}

/// Where the reply text sits in a service's JSON answer.
pub open spec fn reply_pointer_of(p: AIProvider) -> Seq<char> {
    match p {
        AIProvider::OpenAI => "/choices/0/message/content"@,
        AIProvider::Gemini => "/candidates/0/content/parts/0/text"@,
    }
}

/// The configuration of the drafting service, built once and passed on.
#[derive(Clone, Debug, PartialEq, Eq)]
pub struct AIConfig {
    /// The key for the service's API.
    pub api_key: String,
    /// The model to ask.
    pub model: String,
    /// The service to ask.
    pub provider: AIProvider,
}

impl AIConfig {
    /// The configuration for the service named `provider` (any letter case).
    pub fn build(provider: &str, api_key: String, model: String) -> (r: Result<AIConfig, String>)
        ensures
            lowercase_of(provider@) == "openai"@ ==> r == Ok::<AIConfig, String>(
                AIConfig { api_key, model, provider: AIProvider::OpenAI },
            ),
            lowercase_of(provider@) == "gemini"@ ==> r == Ok::<AIConfig, String>(
                AIConfig { api_key, model, provider: AIProvider::Gemini },
            ),
            lowercase_of(provider@) != "openai"@ && lowercase_of(provider@) != "gemini"@ ==> (
            r matches Err(e) && e@ == unsupported_provider(provider@)),
    {
        match AIProvider::from_name(provider) {
            Ok(p) => Ok(AIConfig { api_key, model, provider: p }),
            Err(e) => Err(e),
        }
    }
}

/// A white-space character, as `char::is_whitespace` defines it (the
/// Unicode `White_Space` property).
pub open spec fn is_white_space(c: char) -> bool {
    ('\u{9}' <= c && c <= '\u{d}') || c == ' ' || c == '\u{85}' || c == '\u{a0}' || c
        == '\u{1680}' || ('\u{2000}' <= c && c <= '\u{200a}') || c == '\u{2028}' || c
        == '\u{2029}' || c == '\u{202f}' || c == '\u{205f}' || c == '\u{3000}'
}

/// The number of white-space characters that `s` begins with.
pub open spec fn leading_space(s: Seq<char>) -> nat
    decreases s.len(),
{
    if s.len() > 0 && is_white_space(s[0]) {
        1 + leading_space(s.drop_first())
    } else {
        0
    }
}

/// The number of white-space characters that `s` ends with.
pub open spec fn trailing_space(s: Seq<char>) -> nat
    decreases s.len(),
{
    if s.len() > 0 && is_white_space(s.last()) {
        1 + trailing_space(s.drop_last())
    } else {
        0
    }
}

/// `s` without its leading and trailing white space, as `str::trim` gives it.
pub open spec fn trimmed(s: Seq<char>) -> Seq<char> {
    let t = s.skip(leading_space(s) as int);
    t.take(t.len() - trailing_space(t))
}

proof fn lemma_leading_space_bound(s: Seq<char>)
    ensures
        leading_space(s) <= s.len(),
    decreases s.len(),
{
    if s.len() > 0 && is_white_space(s[0]) {
        lemma_leading_space_bound(s.drop_first());
    }
}

proof fn lemma_trailing_space_bound(s: Seq<char>)
    ensures
        trailing_space(s) <= s.len(),
    decreases s.len(),
{
    if s.len() > 0 && is_white_space(s.last()) {
        lemma_trailing_space_bound(s.drop_last());
    }
}

/// Whether `c` is white space.
fn is_white_space_exec(c: char) -> (r: bool)
    ensures
        r == is_white_space(c),
{
    ('\u{9}' <= c && c <= '\u{d}') || c == ' ' || c == '\u{85}' || c == '\u{a0}' || c
        == '\u{1680}' || ('\u{2000}' <= c && c <= '\u{200a}') || c == '\u{2028}' || c
        == '\u{2029}' || c == '\u{202f}' || c == '\u{205f}' || c == '\u{3000}'
}

/// The characters without their leading and trailing white space.
pub fn trim_chars(s: &Vec<char>) -> (r: Vec<char>)
    ensures
        r@ == trimmed(s@),
{
    let mut a: usize = 0;
    proof {
        assert(s@.skip(0) =~= s@);
    }
    while a < s.len() && is_white_space_exec(s[a])
        invariant
            a <= s.len(),
            leading_space(s@) == a + leading_space(s@.skip(a as int)),
        decreases s.len() - a,
    {
        proof {
            assert(s@.skip(a as int)[0] == s@[a as int]);
            assert(s@.skip(a as int).drop_first() =~= s@.skip(a + 1));
        }
        a = a + 1;
    }
    proof {
        if a < s.len() {
            assert(s@.skip(a as int)[0] == s@[a as int]);
        }
    }
    let ghost t = s@.skip(a as int);
    let mut b: usize = s.len();
    proof {
        assert(t.take(t.len() as int) =~= t);
    }
    while b > a && is_white_space_exec(s[b - 1])
        invariant
            a <= b <= s.len(),
            t == s@.skip(a as int),
            trailing_space(t) == (s.len() - b) + trailing_space(t.take(b - a)),
        decreases b,
    {
        proof {
            assert(t.take(b - a).last() == s@[b - 1]);
            assert(t.take(b - a).drop_last() =~= t.take(b - 1 - a));
        }
        b = b - 1;
    }
    proof {
        if b > a {
            assert(t.take(b - a).last() == s@[b - 1]);
        }
        assert(t.take(b - a) =~= t.take(t.len() - trailing_space(t)));
    }
    let mut r: Vec<char> = Vec::new();
    let mut k: usize = a;
    while k < b
        invariant
            a <= k <= b,
            b <= s.len(),
            r@ == s@.subrange(a as int, k as int),
        decreases b - k,
    {
        r.push(s[k]);
        assert(r@ =~= s@.subrange(a as int, k + 1));
        k = k + 1;
    }
    assert(r@ =~= t.take(b - a));
    r
}

/// The first line of `s`, or nothing when it has none.
pub open spec fn first_line(s: Seq<char>) -> Seq<char> {
    if text_lines(s).len() > 0 {
        text_lines(s)[0]
    } else {
        Seq::empty()
    }
}

/// A reply reduced to one clean line: trimmed, its first line, trimmed again.
pub open spec fn cleaned_reply(s: Seq<char>) -> Seq<char> {
    trimmed(first_line(trimmed(s)))
}

/// Reduces a service's reply to one clean line.
pub fn clean_response(response: &str) -> (r: String)
    ensures
        r@ == cleaned_reply(response@),
{
    let cs = chars_of(response);
    let t = trim_chars(&cs);
    let ts = string_of(&t);
    let lines = text_lines_exec(ts.as_str());
    let first: Vec<char> = if lines.len() > 0 {
        assert(pieces_view(lines@)[0] == lines@[0]@);
        let mut f: Vec<char> = Vec::new();
        let l = &lines[0];
        let mut k: usize = 0;
        while k < l.len()
            invariant
                k <= l.len(),
                f@ == l@.take(k as int),
            decreases l.len() - k,
        {
            f.push(l[k]);
            assert(f@ =~= l@.take(k + 1));
            k = k + 1;
        }
        assert(l@.take(l.len() as int) =~= l@);
        f
    } else {
        Vec::new()
    };
    let r = trim_chars(&first);
    string_of(&r)
}

/// What a prompt says of the changes when no diff of the module is at hand.
pub open spec fn default_changes() -> Seq<char> {
    "recent changes"@
}

/// The prompt that asks for a one-line description of a change.
pub open spec fn prompt_text(
    change_type: Seq<char>,
    tag: Seq<char>,
    module: Seq<char>,
    changes: Seq<char>,
) -> Seq<char> {
    "Generate a changeset message that follows the conventional commit format for a semantic version change. Details:\n- Change Type: "@
        + change_type + "\n- Tag: "@ + tag + "\n- Module: "@ + module + "\n- Changes: "@ + changes
        + "\n\nThe message should:\n1. Start with the tag name followed by a colon and space\n2. Use present tense\n3. Be specific about what changed\n4. Not exceed one line\n5. Not include the module name if it's already implied\nExample format: 'Feature: add user authentication system based on Format'\nReturn ONLY the message, no additional text."@
}

/// The prompt that asks for a one-line description of a change.
pub fn build_prompt(change_type: &str, tag: &str, module: &str, changes: &str) -> (r: String)
    ensures
        r@ == prompt_text(change_type@, tag@, module@, changes@),
{
    let mut r =
        "Generate a changeset message that follows the conventional commit format for a semantic version change. Details:\n- Change Type: ".to_owned();
    append_text(&mut r, change_type);
    append_text(&mut r, "\n- Tag: ");
    append_text(&mut r, tag);
    append_text(&mut r, "\n- Module: ");
    append_text(&mut r, module);
    append_text(&mut r, "\n- Changes: ");
    append_text(&mut r, changes);
    append_text(
        &mut r,
        "\n\nThe message should:\n1. Start with the tag name followed by a colon and space\n2. Use present tense\n3. Be specific about what changed\n4. Not exceed one line\n5. Not include the module name if it's already implied\nExample format: 'Feature: add user authentication system based on Format'\nReturn ONLY the message, no additional text.",
    );
    r
}

/// The prompt for a change of `module`: the changes are the summary of the
/// module's diff when there is one, else "recent changes".
pub fn prompt_for_change(change_type: &str, tag: &str, module: &str, diff: Option<&str>) -> (r:
    String)
    requires
        diff matches Some(d) ==> d@.len() < u32::MAX,
    ensures
        r@ == prompt_text(
            change_type@,
            tag@,
            module@,
            match diff {
                Some(d) => summary_text(text_lines(d@)),
                None => default_changes(),
            },
        ),
{
    match diff {
        Some(d) => {
            let summary = extract_diff_summary(d);
            build_prompt(change_type, tag, module, summary.3.as_str())
        },
        None => build_prompt(change_type, tag, module, "recent changes"),
    }
}

/// The string found at the JSON pointer `pointer` in the JSON text `body`:
/// `None` when the text is no JSON, nothing is there, or it is not a string.
pub uninterp spec fn json_string_at(body: Seq<char>, pointer: Seq<char>) -> Option<Seq<char>>;

/// Relies on `serde_json::from_str` into a `serde_json::Value`,
/// `Value::pointer` (RFC 6901 lookup) and `Value::as_str`.
#[verifier::external_body]
fn json_string(body: &str, pointer: &str) -> (r: Option<String>)
    ensures
        json_string_at(body@, pointer@) == (match r {
            Some(s) => Some(s@),
            None => None,
        }),
{
    let value = serde_json::from_str::<serde_json::Value>(body).ok()?;
    value.pointer(pointer)?.as_str().map(|s| s.to_string())
}

/// The error for an answer that holds no reply text.
pub open spec fn missing_reply() -> Seq<char> {
    "Failed to extract content from response"@
}

/// The reply text in a service's JSON answer.
pub fn response_text(provider: AIProvider, body: &str) -> (r: Result<String, String>)
    ensures
        match json_string_at(body@, reply_pointer_of(provider)) {
            Some(t) => r matches Ok(s) && s@ == t,
            None => r matches Err(e) && e@ == missing_reply(),
        },
{
    match json_string(body, provider.reply_pointer()) {
        Some(t) => Ok(t),
        None => Err("Failed to extract content from response".to_owned()),
    }
}

} // verus!
