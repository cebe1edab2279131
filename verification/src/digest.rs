//! SHA-1 checks of downloaded files: a file is accepted when the lowercase
//! hex text of its SHA-1 digest is the expected text.
use vstd::prelude::*;

verus! {

/// The SHA-1 digest of `data`, as the `sha1` crate computes it.
pub uninterp spec fn sha1_of(data: Seq<u8>) -> Seq<u8>;

/// A nibble as a lowercase hex digit.
pub open spec fn hex_digit(n: u8) -> char {
    if n < 10 {
        ((48 + n) as u32) as char
    } else {
        ((87 + n) as u32) as char
    }
}

/// Each byte as two lowercase hex digits, high nibble first.
pub open spec fn hex_spec(b: Seq<u8>) -> Seq<char>
    decreases b.len(),
{
    if b.len() == 0 {
        Seq::empty()
    } else {
        hex_spec(b.drop_last()) + seq![hex_digit(b.last() / 16), hex_digit(b.last() % 16)]
    }
}

/// `Sha1::digest` of the `sha1` crate: the 20-byte SHA-1 digest of
/// `data`. The digest itself is only named (`sha1_of`); what is stated is
/// that it depends on the data alone and is 20 bytes long.
#[verifier::external_body]
fn sha1_digest(data: &[u8]) -> (r: Vec<u8>)
    ensures
        r@ == sha1_of(data@),
        r@.len() == 20,
{
    <sha1::Sha1 as sha1::Digest>::digest(data).to_vec()
}

/// `hex::encode`: each byte as two lowercase hex digits, in order.
#[verifier::external_body]
fn hex_encode(data: &[u8]) -> (r: String)
    ensures
        r@ == hex_spec(data@),
{
    hex::encode(data)
}

/// The hex text of the SHA-1 digest of `data`.
pub fn sha1_hex(data: &[u8]) -> (r: String)
    ensures
        r@ == hex_spec(sha1_of(data@)),
{
    let d = sha1_digest(data);
    hex_encode(d.as_slice())
}

/// Whether a digest, written as lowercase hex, is the expected text.
pub fn digest_matches(digest: &[u8], expected: &str) -> (r: bool)
    ensures
        r == (hex_spec(digest@) == expected@),
{
    let h = hex_encode(digest);
    crate::text::str_eq(h.as_str(), expected)
}

/// Whether `data` has the expected SHA-1 (as lowercase hex).
pub fn sha1_matches(data: &[u8], expected: &str) -> (r: bool)
    ensures
        r == (hex_spec(sha1_of(data@)) == expected@),
{
    let d = sha1_digest(data);
    digest_matches(d.as_slice(), expected)
}

pub open spec fn sha1_mismatch_message() -> Seq<char> {
    "SHA1 verification failed"@
}

/// The check after a download: the received bytes must have the expected
/// SHA-1, else the download failed.
pub fn check_download(data: &[u8], expected: &str) -> (r: Result<(), String>)
    ensures
        r is Ok <==> hex_spec(sha1_of(data@)) == expected@,
        r matches Err(m) ==> m@ == sha1_mismatch_message(),
{
    if sha1_matches(data, expected) {
        Ok(())
    } else {
        Err(String::from_str("SHA1 verification failed"))
    }
}

/// Whether a file must be fetched: it is missing, cannot be read, or its
/// content does not have the expected SHA-1.
pub fn needs_download(content: Option<&[u8]>, expected: &str) -> (r: bool)
    ensures
        r == match content {
            None => true,
            Some(c) => hex_spec(sha1_of(c@)) != expected@,
        },
{
    match content {
        None => true,
        Some(c) => !sha1_matches(c, expected),
    }
}

/// Hex text has two digits per byte, all of them `0-9` or `a-f`: an
/// expected digest written otherwise (upper case, another length) never
/// matches.
pub proof fn law_hex_shape(b: Seq<u8>)
    ensures
        hex_spec(b).len() == 2 * b.len(),
        forall|i: int| 0 <= i < hex_spec(b).len() ==> {
            let c = #[trigger] hex_spec(b)[i];
            ('0' <= c && c <= '9') || ('a' <= c && c <= 'f')
        },
    decreases b.len(),
{
    if b.len() > 0 {
        law_hex_shape(b.drop_last());
        let x = b.last();
        assert(x / 16 < 16 && x % 16 < 16);
        let p = hex_spec(b.drop_last());
        assert forall|i: int| 0 <= i < hex_spec(b).len() implies {
            let c = #[trigger] hex_spec(b)[i];
            ('0' <= c && c <= '9') || ('a' <= c && c <= 'f')
        } by {
            if i < p.len() {
                assert(hex_spec(b)[i] == p[i]);
            }
        }
    }
}

} // verus!
