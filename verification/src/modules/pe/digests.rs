//! Digests and their text.
//!
//! The hash functions are those of the `sha1` and `sha2` crates, and the
//! hexadecimal text is written by the `array-bytes` crate.

use sha1::Digest;
use vstd::prelude::*;

verus! {

/// The hexadecimal digit for a number below 16, in lower case.
pub open spec fn hex_digit(d: u8) -> char {
    if d < 10 {
        (0x30 + d) as char
    } else {
        (0x57 + d) as char
    }
}

/// The bytes in hexadecimal, two digits in lower case for each byte, the
/// high half first.
pub open spec fn hex_lower(bytes: Seq<u8>) -> Seq<char> {
    Seq::new(
        2 * bytes.len(),
        |i: int|
            if i % 2 == 0 {
                hex_digit(bytes[i / 2] / 16)
            } else {
                hex_digit(bytes[i / 2] % 16)
            },
    )
}

/// The SHA-1 digest of a sequence of bytes.
pub uninterp spec fn sha1(data: Seq<u8>) -> Seq<u8>;

/// The SHA-256 digest of a sequence of bytes.
pub uninterp spec fn sha256(data: Seq<u8>) -> Seq<u8>;

/// `array_bytes::bytes2hex` with an empty prefix: the bytes in hexadecimal,
/// two digits in lower case for each byte.
#[verifier::external_body]
pub(crate) fn bytes2hex(bytes: &[u8]) -> (hex: String)
    ensures
        hex@ == hex_lower(bytes@),
{
    array_bytes::bytes2hex("", bytes)
}

/// `Sha1::digest` of the `sha1` crate: the SHA-1 digest of the data, which
/// has 20 bytes.
#[verifier::external_body]
pub(crate) fn sha1_digest(data: &[u8]) -> (digest: Vec<u8>)
    ensures
        digest@ == sha1(data@),
        digest@.len() == 20,
{
    sha1::Sha1::digest(data).to_vec()
}

/// `Sha256::digest` of the `sha2` crate: the SHA-256 digest of the data,
/// which has 32 bytes.
#[verifier::external_body]
pub(crate) fn sha256_digest(data: &[u8]) -> (digest: Vec<u8>)
    ensures
        digest@ == sha256(data@),
        digest@.len() == 32,
{
    sha2::Sha256::digest(data).to_vec()
}

/// The text of a digest: its bytes in hexadecimal.
pub fn digest_text(digest: &[u8]) -> (text: String)
    ensures
        text@ == hex_lower(digest@),
{
    bytes2hex(digest)
}

/// The thumbprint of a certificate: the SHA-1 digest of its DER encoding,
/// in hexadecimal.
pub fn thumbprint(der: &[u8]) -> (text: String)
    ensures
        text@ == hex_lower(sha1(der@)),
        text@.len() == 40,
{
    let digest = sha1_digest(der);
    bytes2hex(digest.as_slice())
}

/// The digest algorithms with which the digest of a file is computed.
#[derive(Clone, Copy, Debug, PartialEq, Eq, Structural)]
pub enum FileDigestAlgorithm {
    Sha1,
    Sha256,
}

/// The digest of `data` under the given algorithm.
pub open spec fn file_digest_of(algorithm: FileDigestAlgorithm, data: Seq<u8>) -> Seq<u8> {
    match algorithm {
        FileDigestAlgorithm::Sha1 => sha1(data),
        FileDigestAlgorithm::Sha256 => sha256(data),
    }
}

/// How many hexadecimal digits the digest of a file has under the given
/// algorithm.
pub open spec fn digest_digits(algorithm: FileDigestAlgorithm) -> nat {
    match algorithm {
        FileDigestAlgorithm::Sha1 => 40,
        FileDigestAlgorithm::Sha256 => 64,
    }
}

/// The digest of the bytes of a file that enter its Authenticode hash, in
/// hexadecimal: 40 digits for SHA-1, 64 for SHA-256.
pub fn file_digest(algorithm: FileDigestAlgorithm, data: &[u8]) -> (text: String)
    ensures
        text@ == hex_lower(file_digest_of(algorithm, data@)),
        text@.len() == digest_digits(algorithm),
{
    let digest = match algorithm {
        FileDigestAlgorithm::Sha1 => sha1_digest(data),
        FileDigestAlgorithm::Sha256 => sha256_digest(data),
    };
    bytes2hex(digest.as_slice())
}

/// The text of a serial number: its bytes in hexadecimal, two digits in
/// lower case for each byte, with a colon between bytes.
pub open spec fn serial_text(bytes: Seq<u8>) -> Seq<char>
    decreases bytes.len(),
{
    if bytes.len() == 0 {
        Seq::empty()
    } else if bytes.len() == 1 {
        hex_lower(bytes)
    } else {
        serial_text(bytes.drop_last()) + ":"@ + hex_lower(seq![bytes.last()])
    }
}

/// Produces the text of a serial number.
pub fn format_serial_number(sn: &[u8]) -> (text: String)
    ensures
        text@ == serial_text(sn@),
{
    let mut text = String::new();
    let mut i: usize = 0;
    while i < sn.len()
        invariant
            i <= sn@.len(),
            text@ == serial_text(sn@.take(i as int)),
        decreases sn@.len() - i,
    {
        if i > 0 {
            text.append(":");
        }
        let byte = vstd::slice::slice_subrange(sn, i, i + 1);
        let hex = bytes2hex(byte);
        text.append(hex.as_str());
        proof {
            let now = sn@.take(i + 1);
            assert(now.drop_last() =~= sn@.take(i as int));
            assert(byte@ =~= seq![now.last()]);
            if i == 0 {
                assert(now =~= seq![now.last()]);
                assert(text@ =~= hex_lower(now));
            }
        }
        i += 1;
    }
    proof {
        assert(sn@.take(sn@.len() as int) =~= sn@);
    }
    text
}

} // verus!
