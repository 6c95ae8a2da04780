//! Object identifiers and the names they go by.
//!
//! An object identifier is held as its text, the numbers with dots between
//! them. The names of an identifier come from the database of the
//! `const-oid` crate.

use crate::modules::string_equal;
use vstd::prelude::*;

verus! {

/// The longest text that is read as an object identifier.
pub const MAX_OID_LENGTH: usize = 512;

/// The bytes from `i` on are digits and dots, and no number that the digits
/// write is larger than 32 bits hold. `arc` is what the digits before `i`
/// have written of the number that is being read.
pub open spec fn arcs_fit(bytes: Seq<u8>, i: int, arc: int) -> bool
    decreases bytes.len() - i,
{
    if i < 0 || i >= bytes.len() {
        true
    } else if bytes[i] == 0x2e {
        arcs_fit(bytes, i + 1, 0)
    } else if 0x30 <= bytes[i] <= 0x39 {
        arc * 10 + (bytes[i] - 0x30) <= u32::MAX && arcs_fit(
            bytes,
            i + 1,
            arc * 10 + (bytes[i] - 0x30),
        )
    } else {
        false
    }
}

/// The text can be read as an object identifier: it holds digits and dots
/// only, none of its numbers is larger than 32 bits hold, and it is no
/// longer than `MAX_OID_LENGTH`. Not every such text is an object
/// identifier.
pub open spec fn well_written(oid: Seq<char>) -> bool {
    vstd::utf8::encode_utf8(oid).len() <= MAX_OID_LENGTH && arcs_fit(
        vstd::utf8::encode_utf8(oid),
        0,
        0,
    )
}

/// Tells whether the text can be read as an object identifier.
pub fn is_well_written(oid: &str) -> (b: bool)
    ensures
        b == well_written(oid@),
{
    let bytes = oid.as_bytes();
    if bytes.len() > MAX_OID_LENGTH {
        return false;
    }
    let mut arc: u64 = 0;
    let mut i: usize = 0;
    while i < bytes.len()
        invariant
            i <= bytes@.len(),
            bytes@ == vstd::utf8::encode_utf8(oid@),
            bytes@.len() <= MAX_OID_LENGTH,
            arc <= u32::MAX,
            arcs_fit(bytes@, 0, 0) == arcs_fit(bytes@, i as int, arc as int),
        decreases bytes@.len() - i,
    {
        let b = bytes[i];
        if b == 0x2e {
            arc = 0;
        } else if 0x30 <= b && b <= 0x39 {
            arc = arc * 10 + (b - 0x30) as u64;
            if arc > 0xffff_ffff {
                return false;
            }
        } else {
            return false;
        }
        i += 1;
    }
    true
}

/// The names that the database holds for an object identifier, in the
/// order of the database. An identifier that the database does not hold,
/// or a text that is no identifier, has none.
pub uninterp spec fn oid_names(oid: Seq<char>) -> Seq<Seq<char>>;

/// `ObjectIdentifier::new`, then `DB.find_names_for_oid` of the `const-oid`
/// crate: the names of the identifier, in the order of the database; none
/// where the text is no identifier. `ObjectIdentifier::new` reads a number
/// with plain arithmetic on 32 bits and calls itself once for each byte, so
/// the text must be one that `well_written` admits.
#[verifier::external_body]
pub(crate) fn find_names_for_oid(oid: &str) -> (names: Vec<String>)
    requires
        well_written(oid@),
    ensures
        names@.len() == oid_names(oid@).len(),
        forall|i: int| 0 <= i < names@.len() ==> (#[trigger] names@[i])@ == oid_names(oid@)[i],
{
    match const_oid::ObjectIdentifier::new(oid) {
        Ok(oid) => const_oid::db::DB.find_names_for_oid(oid).map(|name| name.to_string()).collect(),
        Err(_) => Vec::new(),
    }
}

/// The character in upper case, if it is a small ASCII letter.
pub open spec fn upper(c: char) -> char {
    if 'a' <= c <= 'z' {
        ((c as u8) - 32) as char
    } else {
        c
    }
}

/// The text with its small ASCII letters in upper case.
pub open spec fn upper_ascii(s: Seq<char>) -> Seq<char> {
    Seq::new(s.len(), |i: int| upper(s[i]))
}

/// `str::to_ascii_uppercase`: a copy of the text in which the ASCII letters
/// `a` to `z` are `A` to `Z`, and every other character is unchanged.
#[verifier::external_body]
pub(crate) fn to_ascii_uppercase(s: &str) -> (r: String)
    ensures
        r@ == upper_ascii(s@),
{
    s.to_ascii_uppercase()
}

/// How many bytes the text takes in UTF-8.
pub open spec fn byte_len(s: Seq<char>) -> nat {
    vstd::utf8::encode_utf8(s).len()
}

/// The position of the first shortest of the first `n` names, where
/// length is counted in bytes.
pub open spec fn shortest_at(names: Seq<Seq<char>>, n: int) -> int
    decreases n,
{
    if n <= 1 || n > names.len() {
        0
    } else {
        let best = shortest_at(names, n - 1);
        if byte_len(names[n - 1]) < byte_len(names[best]) {
            n - 1
        } else {
            best
        }
    }
}

/// The shortest of the names of an object identifier; of several that are
/// equally short, the first in the database. A text that cannot be read as
/// an object identifier has no name.
pub open spec fn shortest_name(oid: Seq<char>) -> Option<Seq<char>> {
    if !well_written(oid) || oid_names(oid).len() == 0 {
        None
    } else {
        Some(oid_names(oid)[shortest_at(oid_names(oid), oid_names(oid).len() as int)])
    }
}

/// What `shortest_at` gives is a position among the names.
pub proof fn lemma_shortest_at(names: Seq<Seq<char>>, n: int)
    requires
        0 < n <= names.len(),
    ensures
        0 <= shortest_at(names, n) < n,
    decreases n,
{
    if n > 1 {
        lemma_shortest_at(names, n - 1);
    }
}

/// Returns the short name of an object identifier: names like `c`, `cn`,
/// `o`, `ou`, `st`, which stand for the fields of the name of an issuer or a
/// subject.
pub fn shortest_name_by_oid(oid: &str) -> (name: Option<String>)
    ensures
        match name {
            Some(n) => shortest_name(oid@) == Some(n@),
            None => shortest_name(oid@) is None,
        },
{
    if !is_well_written(oid) {
        return None;
    }
    let names = find_names_for_oid(oid);
    if names.len() == 0 {
        return None;
    }
    let ghost all = oid_names(oid@);
    let mut best: usize = 0;
    let mut i: usize = 1;
    while i < names.len()
        invariant
            1 <= i <= names@.len(),
            names@.len() == all.len(),
            forall|j: int| 0 <= j < names@.len() ==> (#[trigger] names@[j])@ == all[j],
            best == shortest_at(all, i as int),
            best < i,
        decreases names@.len() - i,
    {
        proof {
            assert(names@[i as int]@ == all[i as int]);
            assert(names@[best as int]@ == all[best as int]);
        }
        if names[i].as_str().as_bytes().len() < names[best].as_str().as_bytes().len() {
            best = i;
        }
        i += 1;
    }
    Some(names[best].clone())
}

/// The object identifier of SHA-1.
pub const ID_SHA_1: &'static str = "1.3.14.3.2.26";

/// The object identifier of SHA-256.
pub const ID_SHA_256: &'static str = "2.16.840.1.101.3.4.2.1";

/// The object identifier of MD5.
pub const ID_MD_5: &'static str = "1.2.840.113549.2.5";

/// The object identifier of RSA with SHA-1.
pub const SHA_1_WITH_RSA_ENCRYPTION: &'static str = "1.2.840.113549.1.1.5";

/// The object identifier of RSA with SHA-256.
pub const SHA_256_WITH_RSA_ENCRYPTION: &'static str = "1.2.840.113549.1.1.11";

/// The name of the algorithm that an object identifier stands for, for
/// the algorithms that signatures are read with.
pub open spec fn algorithm_name(oid: Seq<char>) -> Option<Seq<char>> {
    if oid == ID_SHA_1@ {
        Some("sha1"@)
    } else if oid == ID_SHA_256@ {
        Some("sha256"@)
    } else if oid == ID_MD_5@ {
        Some("md5"@)
    } else if oid == SHA_1_WITH_RSA_ENCRYPTION@ {
        Some("sha1WithRSAEncryption"@)
    } else if oid == SHA_256_WITH_RSA_ENCRYPTION@ {
        Some("sha256WithRSAEncryption"@)
    } else {
        None
    }
}

/// Given an object identifier that stands for an algorithm, returns the
/// name of the algorithm. `None` for any other identifier.
pub fn oid_to_algorithm_name(oid: &str) -> (name: Option<&'static str>)
    ensures
        match name {
            Some(n) => algorithm_name(oid@) == Some(n@),
            None => algorithm_name(oid@) is None,
        },
{
    if string_equal(oid, ID_SHA_1) {
        Some("sha1")
    } else if string_equal(oid, ID_SHA_256) {
        Some("sha256")
    } else if string_equal(oid, ID_MD_5) {
        Some("md5")
    } else if string_equal(oid, SHA_1_WITH_RSA_ENCRYPTION) {
        Some("sha1WithRSAEncryption")
    } else if string_equal(oid, SHA_256_WITH_RSA_ENCRYPTION) {
        Some("sha256WithRSAEncryption")
    } else {
        None
    }
}

} // verus!
