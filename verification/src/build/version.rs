//! Version management and build metadata.
use vstd::prelude::*;
use crate::text::{
    char_is_ascii_digit, is_ascii_digit, push_char, push_str, split_on, split_to_strings,
    str_to_string, to_chars,
};

verus! {

/// The package version.
pub const VERSION: &'static str = "0.1.0";

/// The package name.
pub const PACKAGE_NAME: &'static str = "reedcms";

/// The package authors.
pub const AUTHORS: &'static str = "Vivian Voss <ask@vvoss.dev>";

/// The package description.
pub const DESCRIPTION: &'static str = "A high-performance, CSV-based headless CMS built with Rust";

/// The package repository.
pub const REPOSITORY: &'static str = "https://github.com/vvoss-dev/ReedCMS";

/// The package licence.
pub const LICENSE: &'static str = "Apache-2.0";

/// The minimum Rust version the package declares (none is declared).
pub const RUST_VERSION: &'static str = "unknown";

/// Gets the current ReedCMS version.
pub fn get_version() -> (r: &'static str)
    ensures
        r@ == VERSION@,
{
    VERSION
}

/// Build metadata structure.
#[derive(Debug, Clone)]
pub struct BuildMetadata {
    pub version: String,
    pub name: String,
    pub authors: String,
    pub description: String,
    pub repository: String,
    pub license: String,
    pub rust_version: String,
}

/// Gets the full build metadata of the package.
pub fn get_build_metadata() -> (r: BuildMetadata)
    ensures
        r.version@ == VERSION@,
        r.name@ == PACKAGE_NAME@,
        r.authors@ == AUTHORS@,
        r.description@ == DESCRIPTION@,
        r.repository@ == REPOSITORY@,
        r.license@ == LICENSE@,
        r.rust_version@ == RUST_VERSION@,
{
    BuildMetadata {
        version: str_to_string(VERSION),
        name: str_to_string(PACKAGE_NAME),
        authors: str_to_string(AUTHORS),
        description: str_to_string(DESCRIPTION),
        repository: str_to_string(REPOSITORY),
        license: str_to_string(LICENSE),
        rust_version: str_to_string(RUST_VERSION),
    }
}

/// Gets the version with an optional build suffix: `version-suffix`.
pub fn get_version_with_suffix(suffix: Option<&str>) -> (r: String)
    ensures
        r@ == match suffix {
            Some(s) => VERSION@ + seq!['-'] + s@,
            None => VERSION@,
        },
{
    match suffix {
        Some(s) => {
            let mut r = str_to_string(VERSION);
            push_char(&mut r, '-');
            push_str(&mut r, s);
            r
        },
        None => str_to_string(VERSION),
    }
}

/// Value of a sequence of decimal digits.
pub open spec fn digits_value(d: Seq<char>) -> int
    decreases d.len(),
{
    if d.len() == 0 {
        0
    } else {
        digits_value(d.drop_last()) * 10 + (d.last() as int - '0' as int)
    }
}

pub open spec fn all_digits(d: Seq<char>) -> bool {
    forall|i: int| 0 <= i < d.len() ==> is_ascii_digit(#[trigger] d[i])
}

/// What `str::parse::<u32>` gives: an optional `+`, then one or more
/// decimal digits whose value fits in `u32`.
pub open spec fn parse_u32_spec(s: Seq<char>) -> Option<u32> {
    let d = if s.len() > 0 && s[0] == '+' {
        s.drop_first()
    } else {
        s
    };
    if d.len() == 0 || !all_digits(d) || digits_value(d) > u32::MAX {
        None
    } else {
        Some(digits_value(d) as u32)
    }
}

pub proof fn lemma_digits_value_nonneg(d: Seq<char>)
    requires
        all_digits(d),
    ensures
        digits_value(d) >= 0,
    decreases d.len(),
{
    if d.len() > 0 {
        assert(all_digits(d.drop_last()));
        lemma_digits_value_nonneg(d.drop_last());
        assert(is_ascii_digit(d[d.len() - 1]));
    }
}

/// Parses an unsigned decimal number as `str::parse::<u32>` does.
pub fn parse_u32(s: &str) -> (r: Option<u32>)
    ensures
        r == parse_u32_spec(s@),
{
    let v = to_chars(s);
    let start: usize = if v.len() > 0 && v[0] == '+' { 1 } else { 0 };
    let ghost d = if s@.len() > 0 && s@[0] == '+' { s@.drop_first() } else { s@ };
    assert(d =~= v@.subrange(start as int, v@.len() as int));
    if start == v.len() {
        return None;
    }
    let mut acc: u64 = 0;
    let mut overflow = false;
    let mut i = start;
    assert(d.take(0) =~= Seq::<char>::empty());
    while i < v.len()
        invariant
            start <= i <= v@.len(),
            d == v@.subrange(start as int, v@.len() as int),
            d == (if s@.len() > 0 && s@[0] == '+' { s@.drop_first() } else { s@ }),
            all_digits(d.take(i - start)),
            overflow ==> digits_value(d.take(i - start)) > u32::MAX,
            !overflow ==> acc == digits_value(d.take(i - start)) && acc <= u32::MAX,
        decreases v.len() - i,
    {
        let c = v[i];
        if !char_is_ascii_digit(c) {
            assert(d[i - start] == c);
            assert(!is_ascii_digit(d[i - start]));
            assert(!all_digits(d));
            return None;
        }
        let ghost k = (i - start) as int;
        assert(d.take(k + 1).drop_last() =~= d.take(k));
        assert(d.take(k + 1).last() == c);
        assert(all_digits(d.take(k + 1)));
        proof {
            lemma_digits_value_nonneg(d.take(k));
        }
        if !overflow {
            let digit = (c as u32 - '0' as u32) as u64;
            acc = acc * 10 + digit;
            if acc > 4294967295 {
                overflow = true;
            }
        }
        i += 1;
    }
    assert(d.take(v@.len() - start) =~= d);
    if overflow {
        None
    } else {
        Some(acc as u32)
    }
}

/// What `parse_version` gives: three `.`-separated `u32` numbers.
pub open spec fn parse_version_spec(version: Seq<char>) -> Option<(u32, u32, u32)> {
    let parts = split_on(version, '.');
    if parts.len() != 3 {
        None
    } else {
        match (parse_u32_spec(parts[0]), parse_u32_spec(parts[1]), parse_u32_spec(parts[2])) {
            (Some(a), Some(b), Some(c)) => Some((a, b, c)),
            _ => None,
        }
    }
}

/// Parses a semantic version `major.minor.patch`.
pub fn parse_version(version: &str) -> (r: Option<(u32, u32, u32)>)
    ensures
        r == parse_version_spec(version@),
{
    let parts = split_to_strings(version, '.');
    if parts.len() != 3 {
        return None;
    }
    let major = match parse_u32(parts[0].as_str()) {
        Some(x) => x,
        None => return None,
    };
    let minor = match parse_u32(parts[1].as_str()) {
        Some(x) => x,
        None => return None,
    };
    let patch = match parse_u32(parts[2].as_str()) {
        Some(x) => x,
        None => return None,
    };
    Some((major, minor, patch))
}

/// Two versions are compatible when both parse and their majors match.
pub open spec fn compatible_spec(a: Seq<char>, b: Seq<char>) -> bool {
    match (parse_version_spec(a), parse_version_spec(b)) {
        (Some(va), Some(vb)) => va.0 == vb.0,
        _ => false,
    }
}

/// Checks whether two versions share their major version.
pub fn is_compatible(version_a: &str, version_b: &str) -> (r: bool)
    ensures
        r == compatible_spec(version_a@, version_b@),
{
    match (parse_version(version_a), parse_version(version_b)) {
        (Some((major_a, _, _)), Some((major_b, _, _))) => major_a == major_b,
        _ => false,
    }
}

/// Compatibility is equality of the major versions: two versions are
/// compatible exactly when both parse and their major numbers are equal.
pub proof fn lemma_compatible_iff_same_major(a: Seq<char>, b: Seq<char>)
    ensures
        compatible_spec(a, b) <==> (parse_version_spec(a) is Some && parse_version_spec(b) is Some
            && parse_version_spec(a)->Some_0.0 == parse_version_spec(b)->Some_0.0),
{
}

/// Compatibility is symmetric.
pub proof fn lemma_compatible_symmetric(a: Seq<char>, b: Seq<char>)
    ensures
        compatible_spec(a, b) == compatible_spec(b, a),
{
}

/// Compatibility is transitive.
pub proof fn lemma_compatible_transitive(a: Seq<char>, b: Seq<char>, c: Seq<char>)
    requires
        compatible_spec(a, b),
        compatible_spec(b, c),
    ensures
        compatible_spec(a, c),
{
}

/// A version that parses is compatible with itself.
pub proof fn lemma_compatible_reflexive(a: Seq<char>)
    requires
        parse_version_spec(a) is Some,
    ensures
        compatible_spec(a, a),
{
}

/// The metadata describes the package: the name `reedcms`, the licence
/// `Apache-2.0`, named authors, and a version that is the package's own
/// (`get_version`) and parses as the semantic version 0.1.0.
pub proof fn lemma_metadata_describes_package(m: BuildMetadata)
    requires
        m.version@ == VERSION@,
        m.name@ == PACKAGE_NAME@,
        m.authors@ == AUTHORS@,
        m.license@ == LICENSE@,
    ensures
        m.name@ == "reedcms"@,
        m.license@ == "Apache-2.0"@,
        m.authors@.len() > 0,
        parse_version_spec(m.version@) == Some((0u32, 1u32, 0u32)),
{
    reveal_strlit("0.1.0");
    reveal_strlit("Vivian Voss <ask@vvoss.dev>");
    let z = seq!['0'];
    let o = seq!['1'];
    assert(VERSION@ =~= z + seq!['.'] + o + seq!['.'] + z);
    crate::csv::record::lemma_split_three(z, o, z, '.');
    assert(z.drop_last() =~= Seq::<char>::empty());
    assert(o.drop_last() =~= Seq::<char>::empty());
    assert(digits_value(Seq::<char>::empty()) == 0);
    assert(z.last() == '0' && o.last() == '1');
    assert(digits_value(z) == 0);
    assert(digits_value(o) == 1);
    assert(all_digits(z) && all_digits(o));
}

impl BuildMetadata {
    /// `name version`.
    pub fn full_version(&self) -> (r: String)
        ensures
            r@ == self.name@ + seq![' '] + self.version@,
    {
        let mut r = str_to_string(self.name.as_str());
        push_char(&mut r, ' ');
        push_str(&mut r, self.version.as_str());
        r
    }

    /// Multi-line build information.
    pub fn build_info_string(&self) -> (r: String)
        ensures
            r@ == self.name@ + seq![' '] + self.version@ + "\nAuthors: "@ + self.authors@
                + "\nLicense: "@ + self.license@ + "\nRepository: "@ + self.repository@,
    {
        let mut r = str_to_string(self.name.as_str());
        push_char(&mut r, ' ');
        push_str(&mut r, self.version.as_str());
        push_str(&mut r, "\nAuthors: ");
        push_str(&mut r, self.authors.as_str());
        push_str(&mut r, "\nLicense: ");
        push_str(&mut r, self.license.as_str());
        push_str(&mut r, "\nRepository: ");
        push_str(&mut r, self.repository.as_str());
        r
    }
}

} // verus!
