//! Content digests (SHA-256, MD5) and their lower-case hex form.
use vstd::prelude::*;
use crate::text::push_char;

verus! {

/// The SHA-256 digest of `data`.
pub uninterp spec fn sha256_digest(data: Seq<u8>) -> Seq<u8>;

/// The MD5 digest of `data`.
pub uninterp spec fn md5_digest(data: Seq<u8>) -> Seq<u8>;

/// SHA-256 of `data` (`sha2::Sha256::digest`).
///
/// Trusted: the result is named `sha256_digest(data)`, a function of the
/// bytes alone; the crate returns a 32-byte output for SHA-256.
#[verifier::external_body]
pub(crate) fn sha256(data: &[u8]) -> (r: Vec<u8>)
    ensures
        r@ == sha256_digest(data@),
        r@.len() == 32,
{
    <sha2::Sha256 as sha2::Digest>::digest(data).to_vec()
}

/// MD5 of `data` (`md5::compute`).
///
/// Trusted: the result is named `md5_digest(data)`, a function of the
/// bytes alone; the crate's `Digest` holds 16 bytes.
#[verifier::external_body]
pub(crate) fn md5(data: &[u8]) -> (r: Vec<u8>)
    ensures
        r@ == md5_digest(data@),
        r@.len() == 16,
{
    md5::compute(data).0.to_vec()
}

pub open spec fn hex_digit(d: u8) -> char {
    if d < 10 {
        ('0' as u8 + d) as char
    } else {
        ('a' as u8 + d - 10) as char
    }
}

/// Lower-case hex of the bytes, two digits each (`{:x}` of a digest).
pub open spec fn hex_spec(bytes: Seq<u8>) -> Seq<char>
    decreases bytes.len(),
{
    if bytes.len() == 0 {
        Seq::empty()
    } else {
        hex_spec(bytes.drop_last()) + seq![hex_digit(bytes.last() / 16), hex_digit(bytes.last() % 16)]
    }
}

fn hex_char(d: u8) -> (c: char)
    requires
        d < 16,
    ensures
        c == hex_digit(d),
{
    if d < 10 {
        ('0' as u8 + d) as char
    } else {
        ('a' as u8 + d - 10) as char
    }
}

/// Appends the lower-case hex of `bytes[..n]`.
pub fn push_hex(s: &mut String, bytes: &[u8], n: usize)
    requires
        n <= bytes@.len(),
    ensures
        final(s)@ == old(s)@ + hex_spec(bytes@.take(n as int)),
{
    let mut i: usize = 0;
    assert(bytes@.take(0) =~= Seq::<u8>::empty());
    while i < n
        invariant
            i <= n <= bytes@.len(),
            s@ == old(s)@ + hex_spec(bytes@.take(i as int)),
        decreases n - i,
    {
        let b = bytes[i];
        push_char(s, hex_char(b / 16));
        push_char(s, hex_char(b % 16));
        assert(bytes@.take(i + 1).drop_last() =~= bytes@.take(i as int));
        assert(bytes@.take(i + 1).last() == b);
        assert(s@ =~= old(s)@ + hex_spec(bytes@.take(i + 1)));
        i += 1;
    }
}

/// Lower-case hex of the whole digest.
pub fn hex_string(bytes: &[u8]) -> (r: String)
    ensures
        r@ == hex_spec(bytes@),
{
    let mut r = String::new();
    push_hex(&mut r, bytes, bytes.len());
    assert(bytes@.take(bytes@.len() as int) =~= bytes@);
    assert(r@ =~= hex_spec(bytes@));
    r
}

/// Lower-case hex SHA-256 of `data` (64 characters).
pub fn sha256_hex(data: &[u8]) -> (r: String)
    ensures
        r@ == hex_spec(sha256_digest(data@)),
{
    let digest = sha256(data);
    hex_string(digest.as_slice())
}

/// Lower-case hex MD5 of `data` (32 characters).
pub fn md5_hex(data: &[u8]) -> (r: String)
    ensures
        r@ == hex_spec(md5_digest(data@)),
{
    let digest = md5(data);
    hex_string(digest.as_slice())
}

/// Every character of the hex form is a hex digit.
pub proof fn lemma_hex_digits(bytes: Seq<u8>)
    ensures
        forall|i: int| 0 <= i < hex_spec(bytes).len() ==> crate::text::is_ascii_hex(#[trigger] hex_spec(bytes)[i]),
    decreases bytes.len(),
{
    if bytes.len() > 0 {
        lemma_hex_digits(bytes.drop_last());
        let b = bytes.last();
        assert(b / 16 < 16 && b % 16 < 16);
        lemma_hex_len(bytes.drop_last());
    }
}

/// The hex form has two characters per byte.
pub proof fn lemma_hex_len(bytes: Seq<u8>)
    ensures
        hex_spec(bytes).len() == 2 * bytes.len(),
    decreases bytes.len(),
{
    if bytes.len() > 0 {
        lemma_hex_len(bytes.drop_last());
    }
}

} // verus!
