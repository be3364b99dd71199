//! Semantic versions `major.minor.patch`, their textual form and their order.

use std::cmp::Ordering;
use vstd::prelude::*;
use vstd::std_specs::cmp::PartialEqSpec;
use vstd::std_specs::convert::TryFromSpecImpl;
use crate::data::error::Error;
use crate::text::{
    chars_of, decimal, is_digit, lemma_decimal_digits, lemma_decimal_has_no,
    lemma_parse_u32_decimal, lemma_split_no_sep, parse_u32, parse_u32_chars, push_char,
    push_decimal, split_chars, split_on, trim, trim_end, trim_start, trimmed, views,
};

verus! {

/// Message for a text that does not have three dot-separated parts.
pub const MISSING_PARTS: &'static str = "Version must have major, minor and patch";

/// Message for a major part that is not a number.
pub const MAJOR_NOT_NUMBER: &'static str = "Major version is not a number";

/// Message for a minor part that is not a number.
pub const MINOR_NOT_NUMBER: &'static str = "Minor version is not a number";

/// Message for a patch part that is not a number.
pub const PATCH_NOT_NUMBER: &'static str = "Patch version is not a number";

/// A version `major.minor.patch`.
#[derive(Debug, Clone, Copy, Eq, Ord)]
pub struct Version {
    pub major: u32,
    pub minor: u32,
    pub patch: u32,
}

/// What parsing `s` gives: the text, trimmed of whitespace, must be three
/// parts separated by `.`, each an unsigned 32-bit number.
pub open spec fn parse_version(s: Seq<char>) -> Result<Version, Error> {
    let parts = split_on(trim(s), '.');
    if parts.len() != 3 {
        Err(Error::InvalidStringFormat(MISSING_PARTS))
    } else if parse_u32(parts[0]) is None {
        Err(Error::InvalidStringFormat(MAJOR_NOT_NUMBER))
    } else if parse_u32(parts[1]) is None {
        Err(Error::InvalidStringFormat(MINOR_NOT_NUMBER))
    } else if parse_u32(parts[2]) is None {
        Err(Error::InvalidStringFormat(PATCH_NOT_NUMBER))
    } else {
        Ok(
            Version {
                major: parse_u32(parts[0]).unwrap(),
                minor: parse_u32(parts[1]).unwrap(),
                patch: parse_u32(parts[2]).unwrap(),
            },
        )
    }
}

/// The textual form `major.minor.patch` in decimal.
pub open spec fn version_text(v: Version) -> Seq<char> {
    decimal(v.major as nat) + seq!['.'] + decimal(v.minor as nat) + seq!['.'] + decimal(
        v.patch as nat,
    )
}

/// The order of two versions: by major, then minor, then patch.
pub open spec fn version_order(a: Version, b: Version) -> Ordering {
    if a.major != b.major {
        if a.major < b.major { Ordering::Less } else { Ordering::Greater }
    } else if a.minor != b.minor {
        if a.minor < b.minor { Ordering::Less } else { Ordering::Greater }
    } else if a.patch != b.patch {
        if a.patch < b.patch { Ordering::Less } else { Ordering::Greater }
    } else {
        Ordering::Equal
    }
}

impl Version {
    /// Parses a version from its textual form.
    pub fn new(value: String) -> (res: Result<Version, Error>)
        ensures
            res == parse_version(value@),
    {
        Version::parse(value.as_str())
    }

    /// Parses a version from its textual form.
    pub fn parse(value: &str) -> (res: Result<Version, Error>)
        ensures
            res == parse_version(value@),
    {
        let cs = chars_of(value);
        let t = trimmed(&cs);
        let parts = split_chars(&t, '.');
        assert(views(parts@).len() == parts@.len());
        if parts.len() != 3 {
            return Err(Error::InvalidStringFormat(MISSING_PARTS));
        }
        assert(views(parts@)[0] == parts@[0]@);
        assert(views(parts@)[1] == parts@[1]@);
        assert(views(parts@)[2] == parts@[2]@);
        let major = match parse_u32_chars(&parts[0]) {
            Some(n) => n,
            None => return Err(Error::InvalidStringFormat(MAJOR_NOT_NUMBER)),
        };
        let minor = match parse_u32_chars(&parts[1]) {
            Some(n) => n,
            None => return Err(Error::InvalidStringFormat(MINOR_NOT_NUMBER)),
        };
        let patch = match parse_u32_chars(&parts[2]) {
            Some(n) => n,
            None => return Err(Error::InvalidStringFormat(PATCH_NOT_NUMBER)),
        };
        Ok(Version { major, minor, patch })
    }

    /// The textual form `major.minor.patch`.
    pub fn to_string(&self) -> (res: String)
        ensures
            res@ == version_text(*self),
    {
        let mut s = String::new();
        push_decimal(&mut s, self.major);
        push_char(&mut s, '.');
        push_decimal(&mut s, self.minor);
        push_char(&mut s, '.');
        push_decimal(&mut s, self.patch);
        assert(s@ =~= version_text(*self));
        s
    }

    /// Compares by major, then minor, then patch.
    pub fn cmp(&self, other: &Self) -> (res: Ordering)
        ensures
            res == version_order(*self, *other),
    {
        if self.major != other.major {
            if self.major < other.major { Ordering::Less } else { Ordering::Greater }
        } else if self.minor != other.minor {
            if self.minor < other.minor { Ordering::Less } else { Ordering::Greater }
        } else if self.patch != other.patch {
            if self.patch < other.patch { Ordering::Less } else { Ordering::Greater }
        } else {
            Ordering::Equal
        }
    }
}

impl Default for Version {
    /// The version `0.0.0`.
    fn default() -> (res: Self)
        ensures
            res == (Version { major: 0, minor: 0, patch: 0 }),
    {
        Version { major: 0, minor: 0, patch: 0 }
    }
}

impl PartialEq for Version {
    /// Equal in the order.
    fn eq(&self, other: &Self) -> (res: bool) {
        match self.cmp(other) {
            Ordering::Equal => true,
            _ => false,
        }
    }
}

impl vstd::std_specs::cmp::PartialEqSpecImpl for Version {
    open spec fn obeys_eq_spec() -> bool {
        true
    }

    open spec fn eq_spec(&self, other: &Self) -> bool {
        version_order(*self, *other) == Ordering::Equal
    }
}

impl PartialOrd for Version {
    fn partial_cmp(&self, other: &Self) -> (res: Option<Ordering>) {
        Some(self.cmp(other))
    }
}

impl vstd::std_specs::cmp::PartialOrdSpecImpl for Version {
    open spec fn obeys_partial_cmp_spec() -> bool {
        true
    }

    open spec fn partial_cmp_spec(&self, other: &Self) -> Option<Ordering> {
        Some(version_order(*self, *other))
    }
}

impl TryFrom<String> for Version {
    type Error = Error;

    fn try_from(value: String) -> (res: Result<Self, Self::Error>) {
        Version::parse(value.as_str())
    }
}

impl TryFromSpecImpl<String> for Version {
    open spec fn obeys_try_from_spec() -> bool {
        true
    }

    open spec fn try_from_spec(v: String) -> Result<Self, Self::Error> {
        parse_version(v@)
    }
}

impl TryFrom<&String> for Version {
    type Error = Error;

    fn try_from(value: &String) -> (res: Result<Self, Self::Error>) {
        Version::parse(value.as_str())
    }
}

impl TryFromSpecImpl<&String> for Version {
    open spec fn obeys_try_from_spec() -> bool {
        true
    }

    open spec fn try_from_spec(v: &String) -> Result<Self, Self::Error> {
        parse_version(v@)
    }
}

impl TryFrom<&str> for Version {
    type Error = Error;

    fn try_from(value: &str) -> (res: Result<Self, Self::Error>) {
        Version::parse(value)
    }
}

impl TryFromSpecImpl<&str> for Version {
    open spec fn obeys_try_from_spec() -> bool {
        true
    }

    open spec fn try_from_spec(v: &str) -> Result<Self, Self::Error> {
        parse_version(v@)
    }
}


/// The textual form of a version parses back to the same version.
pub proof fn lemma_parse_version_text(v: Version)
    ensures
        parse_version(version_text(v)) == Ok::<Version, Error>(v),
{
    let d1 = decimal(v.major as nat);
    let d2 = decimal(v.minor as nat);
    let d3 = decimal(v.patch as nat);
    let t = version_text(v);
    lemma_decimal_digits(v.major as nat);
    lemma_decimal_digits(v.minor as nat);
    lemma_decimal_digits(v.patch as nat);
    lemma_decimal_has_no(v.major as nat, '.');
    lemma_decimal_has_no(v.minor as nat, '.');
    lemma_decimal_has_no(v.patch as nat, '.');
    // No whitespace at either end.
    assert(t[0] == d1[0]);
    assert(is_digit(d1[0]));
    assert(t.last() == d3[d3.len() - 1]);
    assert(is_digit(d3[d3.len() - 1]));
    assert(trim_start(t) == t);
    assert(trim_end(t) == t);
    assert(trim(t) == t);
    // Three pieces.
    let e = Seq::<char>::empty();
    let p1 = d1.push('.');
    let p2 = (p1 + d2).push('.');
    lemma_split_no_sep(e, d1, '.');
    assert(e + d1 == d1);
    assert(split_on(d1, '.') =~= seq![d1]);
    assert(p1.drop_last() == d1);
    assert(split_on(p1, '.') =~= seq![d1, e]);
    lemma_split_no_sep(p1, d2, '.');
    assert(split_on(p1 + d2, '.') =~= seq![d1, d2]);
    assert(p2.drop_last() == p1 + d2);
    assert(split_on(p2, '.') =~= seq![d1, d2, e]);
    lemma_split_no_sep(p2, d3, '.');
    assert(t =~= p2 + d3);
    assert(split_on(t, '.') =~= seq![d1, d2, d3]);
    lemma_parse_u32_decimal(v.major);
    lemma_parse_u32_decimal(v.minor);
    lemma_parse_u32_decimal(v.patch);
}

/// Whitespace around a version's text does not change what it parses to.
pub proof fn lemma_parse_version_trimmed(s: Seq<char>)
    ensures
        parse_version(trim(s)) == parse_version(s),
{
    crate::text::lemma_trim_idempotent(s);
}

/// Every version is equal to itself in the order.
pub proof fn lemma_version_order_reflexive(a: Version)
    ensures
        version_order(a, a) == Ordering::Equal,
{
}

/// Two versions are the same exactly when their major, minor and patch
/// numbers are, and equal in the order exactly then; `==` on versions
/// holds exactly then too.
pub proof fn lemma_version_order_equal(a: Version, b: Version)
    ensures
        (a == b) <==> (a.major == b.major && a.minor == b.minor && a.patch == b.patch),
        (version_order(a, b) == Ordering::Equal) <==> a == b,
        a.eq_spec(&b) <==> a == b,
{
}

/// Swapping the two versions reverses their order.
pub proof fn lemma_version_order_antisymmetric(a: Version, b: Version)
    ensures
        (version_order(a, b) == Ordering::Less) <==> (version_order(b, a) == Ordering::Greater),
{
}

/// The order is transitive.
pub proof fn lemma_version_order_transitive(a: Version, b: Version, c: Version)
    requires
        version_order(a, b) == Ordering::Less,
        version_order(b, c) == Ordering::Less,
    ensures
        version_order(a, c) == Ordering::Less,
{
}

} // verus!
