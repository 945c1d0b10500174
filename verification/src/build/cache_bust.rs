//! Cache busting with content-based hashing.
//!
//! An asset `knowledge.mouse.css` becomes `knowledge.mouse.<hash>.css`,
//! where the hash is the first 8 hex digits of the SHA-256 of its content.
use vstd::prelude::*;
use crate::build::digest::{hex_spec, push_hex, sha256, sha256_digest};
use crate::reedstream::{ErrorView, ReedError, ReedResult};
use crate::string_map::StringMap;
use crate::text::{
    char_is_ascii_alnum, char_is_ascii_digit, char_is_ascii_hex, chars_to_string, copy_string,
    ends_with, is_ascii_alnum, is_ascii_digit, is_ascii_hex, push_char, push_chars, push_str,
    split_on, split_to_strings, str_ends_with, str_to_string, to_chars,
};

verus! {

/// Asset manifest: original file name to cache-busted file name.
#[derive(Debug, Clone)]
pub struct AssetManifest {
    pub entries: StringMap,
}

impl AssetManifest {
    /// Creates a new empty manifest.
    pub fn new() -> (r: AssetManifest)
        ensures
            r.entries.wf(),
            r.entries.entries().len() == 0,
    {
        AssetManifest { entries: StringMap::new() }
    }
}

/// The content hash: the first 8 hex digits of the SHA-256 of the content.
pub open spec fn content_hash_spec(content: Seq<u8>) -> Seq<char> {
    hex_spec(sha256_digest(content).take(4))
}

/// A hash as this module writes it: eight hex digits.
pub open spec fn is_hex8(h: Seq<char>) -> bool {
    h.len() == 8 && forall|i: int| 0 <= i < h.len() ==> is_ascii_hex(#[trigger] h[i])
}

/// Calculates the content hash (first 8 hex digits of SHA-256).
pub fn calculate_content_hash(content: &[u8]) -> (r: String)
    ensures
        r@ == content_hash_spec(content@),
        is_hex8(r@),
{
    let digest = sha256(content);
    let mut r = String::new();
    push_hex(&mut r, digest.as_slice(), 4);
    assert(r@ =~= content_hash_spec(content@));
    proof {
        crate::build::digest::lemma_hex_len(digest@.take(4));
        crate::build::digest::lemma_hex_digits(digest@.take(4));
    }
    r
}

/// Position of the last `.` in `s`, if any.
pub open spec fn last_dot(s: Seq<char>) -> Option<int> {
    if s.contains('.') {
        Some(choose|i: int| 0 <= i < s.len() && s[i] == '.' && forall|j: int| i < j < s.len() ==> s[j] != '.')
    } else {
        None
    }
}

/// The file name with the hash put before its extension.
pub open spec fn hashed_name_spec(filename: Seq<char>, hash: Seq<char>) -> Seq<char> {
    match last_dot(filename) {
        Some(i) => filename.subrange(0, i) + seq!['.'] + hash + seq!['.'] + filename.subrange(i + 1, filename.len() as int),
        None => filename + seq!['.'] + hash,
    }
}

/// Inserts the hash into the file name before the extension.
pub fn insert_hash_into_filename(filename: &str, hash: &str) -> (r: String)
    ensures
        r@ == hashed_name_spec(filename@, hash@),
{
    let v = to_chars(filename);
    let mut i = v.len();
    while i > 0 && v[i - 1] != '.'
        invariant
            i <= v@.len(),
            v@ == filename@,
            forall|j: int| i <= j < v@.len() ==> v@[j] != '.',
        decreases i,
    {
        i -= 1;
    }
    if i == 0 {
        assert(!filename@.contains('.')) by {
            if filename@.contains('.') {
                let k = choose|k: int| 0 <= k < filename@.len() && filename@[k] == '.';
            }
        }
        let mut r = str_to_string(filename);
        push_char(&mut r, '.');
        push_str(&mut r, hash);
        r
    } else {
        let dot = i - 1;
        assert(filename@.contains('.')) by {
            assert(filename@[dot as int] == '.');
        }
        assert(last_dot(filename@) == Some(dot as int)) by {
            let c = choose|c: int| 0 <= c < filename@.len() && filename@[c] == '.' && forall|j: int| c < j < filename@.len() ==> filename@[j] != '.';
            assert(0 <= c < filename@.len() && filename@[c] == '.' && forall|j: int| c < j < filename@.len() ==> filename@[j] != '.');
            if c < dot {
                assert(filename@[dot as int] != '.');
            } else if c > dot {
            }
        }
        let mut r = chars_to_string(&v, 0, dot);
        push_char(&mut r, '.');
        push_str(&mut r, hash);
        push_char(&mut r, '.');
        push_chars(&mut r, v.as_slice(), dot + 1, v.len());
        r
    }
}

/// Whether `h` looks like a content hash: 8 ASCII letters or digits that
/// are all hex digits or include a digit.
pub open spec fn looks_like_hash(h: Seq<char>) -> bool {
    &&& h.len() == 8
    &&& forall|i: int| 0 <= i < h.len() ==> is_ascii_alnum(#[trigger] h[i])
    &&& ((forall|i: int| 0 <= i < h.len() ==> is_ascii_hex(#[trigger] h[i]))
        || exists|i: int| 0 <= i < h.len() && is_ascii_digit(#[trigger] h[i]))
}

/// Whether the file name already holds a hash before its extension.
pub open spec fn already_hashed_spec(filename: Seq<char>) -> bool {
    let parts = split_on(filename, '.');
    parts.len() >= 3 && looks_like_hash(parts[parts.len() - 2])
}

fn looks_like_hash_exec(h: &str) -> (r: bool)
    ensures
        r == looks_like_hash(h@),
{
    let v = to_chars(h);
    if v.len() != 8 {
        return false;
    }
    let mut all_hex = true;
    let mut any_digit = false;
    let mut i: usize = 0;
    while i < 8
        invariant
            v@ == h@,
            v@.len() == 8,
            i <= 8,
            forall|k: int| 0 <= k < i ==> is_ascii_alnum(#[trigger] v@[k]),
            all_hex == forall|k: int| 0 <= k < i ==> is_ascii_hex(#[trigger] v@[k]),
            any_digit == exists|k: int| 0 <= k < i && is_ascii_digit(#[trigger] v@[k]),
        decreases 8 - i,
    {
        let c = v[i];
        if !char_is_ascii_alnum(c) {
            return false;
        }
        if !char_is_ascii_hex(c) {
            all_hex = false;
        }
        if char_is_ascii_digit(c) {
            any_digit = true;
        }
        assert(is_ascii_digit(c) ==> is_ascii_digit(v@[i as int]));
        i += 1;
    }
    all_hex || any_digit
}

/// A sequence that holds `c` has a last position of `c`.
proof fn lemma_last_occurrence(s: Seq<char>, c: char)
    requires
        s.contains(c),
    ensures
        exists|i: int| 0 <= i < s.len() && s[i] == c && forall|j: int| i < j < s.len() ==> s[j] != c,
    decreases s.len(),
{
    if s.last() == c {
        assert(s[s.len() - 1] == c);
    } else {
        let k = choose|k: int| 0 <= k < s.len() && s[k] == c;
        assert(k < s.len() - 1);
        assert(s.drop_last()[k] == c);
        lemma_last_occurrence(s.drop_last(), c);
        let i = choose|i: int| 0 <= i < s.drop_last().len() && s.drop_last()[i] == c && forall|j: int|
            i < j < s.drop_last().len() ==> s.drop_last()[j] != c;
        assert(s[i] == c);
        assert forall|j: int| i < j < s.len() implies s[j] != c by {
            if j < s.len() - 1 {
                assert(s.drop_last()[j] == s[j]);
            }
        }
    }
}

/// A busted file name is recognised as already hashed, so that a second
/// cache-busting run leaves it alone: for every file name with an
/// extension and every hash of eight hex digits (what
/// `calculate_content_hash` gives).
pub proof fn lemma_busted_name_is_hashed(filename: Seq<char>, hash: Seq<char>)
    requires
        filename.contains('.'),
        is_hex8(hash),
    ensures
        already_hashed_spec(hashed_name_spec(filename, hash)),
        !bust_candidate_spec(hashed_name_spec(filename, hash)),
{
    lemma_last_occurrence(filename, '.');
    let i = last_dot(filename).unwrap();
    let prefix = filename.subrange(0, i);
    let ext = filename.subrange(i + 1, filename.len() as int);
    assert(!ext.contains('.')) by {
        if ext.contains('.') {
            let k = choose|k: int| 0 <= k < ext.len() && ext[k] == '.';
            assert(filename[i + 1 + k] == '.');
        }
    }
    assert(!hash.contains('.')) by {
        if hash.contains('.') {
            let k = choose|k: int| 0 <= k < hash.len() && hash[k] == '.';
            assert(is_ascii_hex(hash[k]));
        }
    }
    let first = prefix + seq!['.'] + hash;
    crate::text::lemma_split_append_piece(prefix, '.', hash);
    crate::text::lemma_split_append_piece(first, '.', ext);
    crate::text::lemma_split_nonempty(prefix, '.');
    let name = hashed_name_spec(filename, hash);
    assert(name == first + seq!['.'] + ext);
    let parts = split_on(name, '.');
    assert(parts == split_on(prefix, '.').push(hash).push(ext));
    assert(parts[parts.len() - 2] == hash);
    assert forall|k: int| 0 <= k < hash.len() implies is_ascii_alnum(#[trigger] hash[k]) by {
        assert(is_ascii_hex(hash[k]));
    }
    assert(looks_like_hash(hash));
}

/// Checks whether a file name already contains a hash.
///
/// The segment before the extension must be 8 ASCII letters or digits,
/// either all hex digits (what this module writes) or mixed with digits.
pub fn is_already_hashed(filename: &str) -> (r: bool)
    ensures
        r == already_hashed_spec(filename@),
{
    let parts = split_to_strings(filename, '.');
    if parts.len() >= 3 {
        looks_like_hash_exec(parts[parts.len() - 2].as_str())
    } else {
        false
    }
}

/// A file that cache busting renames: not a source map, not a compressed
/// copy, not already hashed.
pub open spec fn bust_candidate_spec(filename: Seq<char>) -> bool {
    !ends_with(filename, ".map"@) && !ends_with(filename, ".gz"@) && !ends_with(filename, ".br"@)
        && !already_hashed_spec(filename)
}

/// Whether cache busting renames this file.
pub fn is_bust_candidate(filename: &str) -> (r: bool)
    ensures
        r == bust_candidate_spec(filename@),
{
    !str_ends_with(filename, ".map") && !str_ends_with(filename, ".gz") && !str_ends_with(filename, ".br")
        && !is_already_hashed(filename)
}

/// The cache-busted name of a file with the given content.
pub fn busted_filename(filename: &str, content: &[u8]) -> (r: String)
    ensures
        r@ == hashed_name_spec(filename@, content_hash_spec(content@)),
{
    let hash = calculate_content_hash(content);
    insert_hash_into_filename(filename, hash.as_str())
}

/// Gets the cache-busted file name from the manifest.
pub fn get_hashed_filename(manifest: &AssetManifest, original_name: &str) -> (r: ReedResult<String>)
    requires
        manifest.entries.wf(),
    ensures
        match manifest.entries.lookup(original_name@) {
            Some(v) => r matches Ok(s) && s@ == v,
            None => r matches Err(e) && e@ == ErrorView::NotFound {
                resource: original_name@,
                context: Some("asset manifest"@),
            },
        },
{
    match manifest.entries.get(original_name) {
        Some(v) => Ok(copy_string(v)),
        None => Err(
            ReedError::NotFound {
                resource: str_to_string(original_name),
                context: Some(String::from_str("asset manifest")),
            },
        ),
    }
}

/// An asset file as read from `public/css` or `public/js`.
#[derive(Debug, Clone)]
pub struct AssetFile {
    pub name: String,
    pub content: Vec<u8>,
}

/// The busted name of the last candidate file called `name`.
pub open spec fn busted_lookup(files: Seq<AssetFile>, name: Seq<char>) -> Option<Seq<char>>
    decreases files.len(),
{
    if files.len() == 0 {
        None
    } else if files.last().name@ == name && bust_candidate_spec(name) {
        Some(hashed_name_spec(name, content_hash_spec(files.last().content@)))
    } else {
        busted_lookup(files.drop_last(), name)
    }
}

/// Builds the cache-busting manifest of the asset files (those of
/// `public/css`, then those of `public/js`): every candidate file maps to
/// its busted name; of two files with one name the later one counts. The
/// caller renames the files as the manifest says and writes it out.
pub fn generate_cache_busting_manifest(files: &Vec<AssetFile>) -> (m: AssetManifest)
    ensures
        m.entries.wf(),
        forall|n: Seq<char>| #[trigger] m.entries.lookup(n) == busted_lookup(files@, n),
{
    let mut manifest = AssetManifest::new();
    let mut i: usize = 0;
    while i < files.len()
        invariant
            i <= files@.len(),
            manifest.entries.wf(),
            forall|n: Seq<char>| #[trigger] manifest.entries.lookup(n) == busted_lookup(files@.take(i as int), n),
        decreases files.len() - i,
    {
        let ghost t = files@.take(i + 1);
        assert(t.drop_last() =~= files@.take(i as int));
        assert(t.last() == files@[i as int]);
        let f = &files[i];
        if is_bust_candidate(f.name.as_str()) {
            let hashed = busted_filename(f.name.as_str(), f.content.as_slice());
            manifest.entries.insert(copy_string(&f.name), hashed);
        }
        assert forall|n: Seq<char>| #[trigger] manifest.entries.lookup(n) == busted_lookup(t, n) by {}
        i += 1;
    }
    assert(files@.take(i as int) =~= files@);
    manifest
}

} // verus!
