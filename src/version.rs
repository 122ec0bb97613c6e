//! Semantic versions (`MAJOR.MINOR.PATCH`) and bump classes.
use vstd::prelude::*;
use crate::text::{chars_of, decimal, digit_char, decimal_chars, split_chars, split_on, string_of, text_eq, pieces_view};

verus! {

/// Which component of a semantic version a change requires incrementing.
#[derive(Clone, Copy, Debug, PartialEq, Eq, Structural)]
pub enum BumpClass {
    Major,
    Minor,
    Patch,
}

/// A semantic version `major.minor.patch`.
#[derive(Clone, Copy, Debug, PartialEq, Eq, Structural)]
pub struct Version {
    pub major: u32,
    pub minor: u32,
    pub patch: u32,
}

/// The name of a bump class as it is written in a record.
pub open spec fn class_name(c: BumpClass) -> Seq<char> {
    match c {
        BumpClass::Major => "MAJOR"@,
        BumpClass::Minor => "MINOR"@,
        BumpClass::Patch => "PATCH"@,
    }
}

/// The bump class named by `t`, if any.
pub open spec fn class_of_name(t: Seq<char>) -> Option<BumpClass> {
    if t == "MAJOR"@ {
        Some(BumpClass::Major)
    } else if t == "MINOR"@ {
        Some(BumpClass::Minor)
    } else if t == "PATCH"@ {
        Some(BumpClass::Patch)
    } else {
        None
    }
}

/// The single most severe class among `cs`: MAJOR over MINOR over PATCH.
pub open spec fn highest_class(cs: Seq<BumpClass>) -> BumpClass {
    if cs.contains(BumpClass::Major) {
        BumpClass::Major
    } else if cs.contains(BumpClass::Minor) {
        BumpClass::Minor
    } else {
        BumpClass::Patch
    }
}

/// The incremented component still fits in 32 bits.
pub open spec fn bump_fits(v: Version, c: BumpClass) -> bool {
    match c {
        BumpClass::Major => v.major < u32::MAX,
        BumpClass::Minor => v.minor < u32::MAX,
        BumpClass::Patch => v.patch < u32::MAX,
    }
}

/// One increment of `v` by class `c`: MAJOR increments the first component
/// and zeroes the rest, MINOR increments the second and zeroes the third,
/// PATCH increments the third only.
pub open spec fn bumped(v: Version, c: BumpClass) -> Version {
    match c {
        BumpClass::Major => Version { major: (v.major + 1) as u32, minor: 0, patch: 0 },
        BumpClass::Minor => Version { major: v.major, minor: (v.minor + 1) as u32, patch: 0 },
        BumpClass::Patch => Version { major: v.major, minor: v.minor, patch: (v.patch + 1) as u32 },
    }
}

/// A decimal digit.
pub open spec fn is_digit(c: char) -> bool {
    '0' <= c && c <= '9'
}

/// A non-empty run of decimal digits.
pub open spec fn all_digits(t: Seq<char>) -> bool {
    t.len() > 0 && forall|i: int| 0 <= i < t.len() ==> is_digit(#[trigger] t[i])
}

/// The number that the digits of `t` denote.
pub open spec fn digits_value(t: Seq<char>) -> nat
    decreases t.len(),
{
    if t.len() == 0 {
        0
    } else {
        digits_value(t.drop_last()) * 10 + ((t.last() as nat) - ('0' as nat)) as nat
    }
}

/// The component that the text `t` denotes, when it is digits and fits in 32 bits.
pub open spec fn component_of(t: Seq<char>) -> Option<u32> {
    if all_digits(t) && digits_value(t) <= u32::MAX {
        Some(digits_value(t) as u32)
    } else {
        None
    }
}

/// The version that `s` denotes: exactly three dot-separated components.
pub open spec fn version_of_text(s: Seq<char>) -> Option<Version> {
    let p = split_on(s, '.');
    if p.len() == 3 && component_of(p[0]) is Some && component_of(p[1]) is Some
        && component_of(p[2]) is Some {
        Some(
            Version {
                major: component_of(p[0])->0,
                minor: component_of(p[1])->0,
                patch: component_of(p[2])->0,
            },
        )
    } else {
        None
    }
}

/// The text `major.minor.patch` of a version, in decimal.
pub open spec fn version_text(v: Version) -> Seq<char> {
    decimal(v.major as nat) + "."@ + decimal(v.minor as nat) + "."@ + decimal(v.patch as nat)
}

impl BumpClass {
    /// The class named by `name` ("MAJOR", "MINOR" or "PATCH"), if any.
    pub fn from_name(name: &str) -> (r: Option<BumpClass>)
        ensures
            r == class_of_name(name@),
    {
        let cs = chars_of(name);
        if text_eq(&cs, "MAJOR") {
            Some(BumpClass::Major)
        } else if text_eq(&cs, "MINOR") {
            Some(BumpClass::Minor)
        } else if text_eq(&cs, "PATCH") {
            Some(BumpClass::Patch)
        } else {
            None
        }
    }

    /// The name under which the class is written.
    pub fn name(&self) -> (r: &'static str)
        ensures
            r@ == class_name(*self),
    {
        match self {
            BumpClass::Major => "MAJOR",
            BumpClass::Minor => "MINOR",
            BumpClass::Patch => "PATCH",
        }
    }
}

/// The component denoted by the characters `t`.
fn parse_component(t: &Vec<char>) -> (r: Option<u32>)
    ensures
        r == component_of(t@),
{
    if t.len() == 0 {
        return None;
    }
    let mut value: u64 = 0;
    let mut big = false;
    let mut i: usize = 0;
    while i < t.len()
        invariant
            i <= t.len(),
            forall|j: int| 0 <= j < i ==> is_digit(#[trigger] t@[j]),
            !big ==> value as nat == digits_value(t@.take(i as int)) && value <= u32::MAX,
            big ==> digits_value(t@.take(i as int)) > u32::MAX,
        decreases t.len() - i,
    {
        let c = t[i];
        proof {
            assert(t@.take(i + 1).drop_last() =~= t@.take(i as int));
        }
        if c < '0' || c > '9' {
            assert(!is_digit(t@[i as int]));
            return None;
        }
        let d: u64 = (c as u64) - 48;
        if !big {
            let next: u64 = value * 10 + d;
            if next > 4294967295u64 {
                big = true;
            } else {
                value = next;
            }
        }
        i = i + 1;
    }
    assert(t@.take(t.len() as int) =~= t@);
    if big {
        None
    } else {
        Some(value as u32)
    }
}

/// Parses `MAJOR.MINOR.PATCH`: three non-empty runs of decimal digits
/// separated by dots, each at most `u32::MAX`.
pub fn parse_version(version: &str) -> (r: Option<Version>)
    ensures
        r == version_of_text(version@),
{
    let cs = chars_of(version);
    let parts = split_chars(&cs, '.');
    proof {
        assert(pieces_view(parts@).len() == parts@.len());
    }
    if parts.len() != 3 {
        return None;
    }
    assert(parts@[0]@ == pieces_view(parts@)[0]);
    assert(parts@[1]@ == pieces_view(parts@)[1]);
    assert(parts@[2]@ == pieces_view(parts@)[2]);
    let a = parse_component(&parts[0]);
    let b = parse_component(&parts[1]);
    let c = parse_component(&parts[2]);
    match (a, b, c) {
        (Some(major), Some(minor), Some(patch)) => Some(Version { major, minor, patch }),
        _ => None,
    }
}

impl Version {
    /// The version `major.minor.patch`.
    pub fn new(major: u32, minor: u32, patch: u32) -> (r: Version)
        ensures
            r == (Version { major, minor, patch }),
    {
        Version { major, minor, patch }
    }

    /// Whether one increment of class `c` still fits in 32 bits.
    pub fn can_bump(&self, c: BumpClass) -> (r: bool)
        ensures
            r == bump_fits(*self, c),
    {
        match c {
            BumpClass::Major => self.major < u32::MAX,
            BumpClass::Minor => self.minor < u32::MAX,
            BumpClass::Patch => self.patch < u32::MAX,
        }
    }

    /// The text `major.minor.patch`.
    pub fn to_text(&self) -> (r: String)
        ensures
            r@ == version_text(*self),
    {
        let mut cs = decimal_chars(self.major);
        cs.push('.');
        let mut b = decimal_chars(self.minor);
        cs.append(&mut b);
        cs.push('.');
        let mut c = decimal_chars(self.patch);
        cs.append(&mut c);
        let r = string_of(&cs);
        proof {
            reveal_strlit(".");
            assert(r@ =~= version_text(*self));
        }
        r
    }
}

/// The version after one increment of class `change`.
pub fn calculate_next_version(current: &Version, change: BumpClass) -> (r: Version)
    requires
        bump_fits(*current, change),
    ensures
        r == bumped(*current, change),
{
    match change {
        BumpClass::Major => Version { major: current.major + 1, minor: 0, patch: 0 },
        BumpClass::Minor => Version { major: current.major, minor: current.minor + 1, patch: 0 },
        BumpClass::Patch => Version {
            major: current.major,
            minor: current.minor,
            patch: current.patch + 1,
        },
    }
}

/// The decimal rendering of `n` is a run of digits that denotes `n`.
pub proof fn lemma_decimal_digits(n: nat)
    ensures
        all_digits(decimal(n)),
        digits_value(decimal(n)) == n,
        !decimal(n).contains('.'),
    decreases n,
{
    let d = decimal(n);
    if n < 10 {
        assert(d.drop_last() =~= Seq::<char>::empty());
        assert(d[0] == digit_char(n));
        assert(digits_value(d.drop_last()) == 0);
        assert((digit_char(n) as nat) == n + 48);
        assert(digits_value(d) == n);
    } else {
        lemma_decimal_digits(n / 10);
        let p = decimal(n / 10);
        assert(d.drop_last() =~= p);
        assert(d.last() == digit_char(n % 10));
        assert((digit_char(n % 10) as nat) == n % 10 + 48);
        assert(digits_value(d) == (n / 10) * 10 + n % 10);
        assert forall|i: int| 0 <= i < d.len() implies is_digit(#[trigger] d[i]) by {
            if i < p.len() {
                assert(d[i] == p[i]);
            }
        }
        assert(!d.contains('.')) by {
            if d.contains('.') {
                let i = choose|i: int| 0 <= i < d.len() && d[i] == '.';
                if i < p.len() {
                    assert(p[i] == '.');
                }
            }
        }
    }
}

/// A written class name reads back as the same class.
pub proof fn lemma_class_name_round_trip(c: BumpClass)
    ensures
        class_of_name(class_name(c)) == Some(c),
{
    reveal_strlit("MAJOR");
    reveal_strlit("MINOR");
    reveal_strlit("PATCH");
    assert("MAJOR"@[1] != "MINOR"@[1]);
    assert("MAJOR"@[0] != "PATCH"@[0]);
    assert("MINOR"@[0] != "PATCH"@[0]);
}

/// The text of a version parses back to the same version.
pub proof fn lemma_version_text_round_trip(v: Version)
    ensures
        version_of_text(version_text(v)) == Some(v),
{
    let a = decimal(v.major as nat);
    let b = decimal(v.minor as nat);
    let c = decimal(v.patch as nat);
    lemma_decimal_digits(v.major as nat);
    lemma_decimal_digits(v.minor as nat);
    lemma_decimal_digits(v.patch as nat);
    reveal_strlit(".");
    let e = Seq::<char>::empty();
    let s1 = a;
    let s2 = a + "."@;
    let s3 = a + "."@ + b;
    let s4 = a + "."@ + b + "."@;
    let s5 = version_text(v);
    crate::text::lemma_split_on_extend(e, a, '.');
    assert(e + a =~= a);
    assert(split_on(e, '.') =~= seq![e]);
    assert(split_on(s1, '.') =~= seq![a]);
    assert(s2 =~= s1.push('.'));
    assert(s2.drop_last() =~= s1);
    assert(split_on(s2, '.') =~= seq![a, e]);
    crate::text::lemma_split_on_extend(s2, b, '.');
    assert(e + b =~= b);
    assert(split_on(s3, '.') =~= seq![a, b]);
    assert(s4 =~= s3.push('.'));
    assert(s4.drop_last() =~= s3);
    assert(split_on(s4, '.') =~= seq![a, b, e]);
    crate::text::lemma_split_on_extend(s4, c, '.');
    assert(e + c =~= c);
    assert(s5 =~= s4 + c);
    assert(split_on(s5, '.') =~= seq![a, b, c]);
}

} // verus!
