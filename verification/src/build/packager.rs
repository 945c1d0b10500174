//! Release packaging: names and the package record.
use vstd::prelude::*;
use crate::text::{push_str, str_to_string};

verus! {

/// A packaged release.
#[derive(Debug, Clone)]
pub struct PackageInfo {
    pub package_name: String,
    pub archive_path: String,
    pub archive_size: usize,
    pub sha256: String,
}

/// `reedcms-v<version>-<os>-<arch>`.
pub open spec fn package_name_text(version: Seq<char>, os: Seq<char>, arch: Seq<char>) -> Seq<char> {
    "reedcms-v"@ + version + "-"@ + os + "-"@ + arch
}

/// The name of the release package for a version, OS and architecture.
pub fn package_name(version: &str, os: &str, arch: &str) -> (r: String)
    ensures
        r@ == package_name_text(version@, os@, arch@),
{
    let mut r = str_to_string("reedcms-v");
    push_str(&mut r, version);
    push_str(&mut r, "-");
    push_str(&mut r, os);
    push_str(&mut r, "-");
    push_str(&mut r, arch);
    r
}

/// The directory a package is assembled in.
pub fn package_dir(name: &str) -> (r: String)
    ensures
        r@ == "target/release/"@ + name@,
{
    let mut r = str_to_string("target/release/");
    push_str(&mut r, name);
    r
}

/// The archive of a package.
pub fn archive_path(name: &str) -> (r: String)
    ensures
        r@ == "target/release/"@ + name@ + ".tar.gz"@,
{
    let mut r = str_to_string("target/release/");
    push_str(&mut r, name);
    push_str(&mut r, ".tar.gz");
    r
}

} // verus!
