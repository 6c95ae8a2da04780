//! Authenticode signatures.
//!
//! A signature arrives here decoded: the structures below hold, as plain
//! values, what the DER encoding said. This module checks that what was
//! decoded is an Authenticode signature, collects the signatures nested in
//! it and the countersignatures, and finds the chain of certificates of a
//! signer.
//!
//! Some resources for understanding Authenticode signatures:
//! <https://blog.trailofbits.com/2020/05/27/verifying-windows-binaries-without-windows/>
//! <https://docs.clamav.net/appendix/Authenticode.html>

use crate::modules::pe::digests::{bytes2hex, hex_lower, FileDigestAlgorithm};
use crate::modules::pe::names::{shortest_name, shortest_name_by_oid, to_ascii_uppercase, upper_ascii};
use crate::modules::string_equal;
use crate::string_pool::bytes_equal;
use vstd::prelude::*;

verus! {

/// Object identifier of `SpcIndirectDataContent`.
pub const SPC_INDIRECT_DATA_OBJID: &'static str = "1.3.6.1.4.1.311.2.1.4";

/// Object identifier of `SpcSpOpusInfo`.
pub const SPC_SP_OPUS_INFO_OBJID: &'static str = "1.3.6.1.4.1.311.2.1.12";

/// Object identifier of the attribute that holds nested signatures.
pub const SPC_MS_NESTED_SIGNATURE: &'static str = "1.3.6.1.4.1.311.2.4.1";

/// Object identifier of the attribute that holds timestamp tokens.
pub const SPC_MS_COUNTERSIGN: &'static str = "1.3.6.1.4.1.311.3.3.1";

/// Object identifier of signed data.
pub const ID_SIGNED_DATA: &'static str = "1.2.840.113549.1.7.2";

/// Object identifier of the attribute with the type of the content.
pub const ID_CONTENT_TYPE: &'static str = "1.2.840.113549.1.9.3";

/// Object identifier of the attribute with the digest of the content.
pub const ID_MESSAGE_DIGEST: &'static str = "1.2.840.113549.1.9.4";

/// Object identifier of the attribute with the time of signing.
pub const ID_SIGNING_TIME: &'static str = "1.2.840.113549.1.9.5";

/// Object identifier of the attribute that holds countersignatures.
pub const ID_COUNTERSIGNATURE: &'static str = "1.2.840.113549.1.9.6";

/// The kinds of ASN.1 value that a part of a name can be.
#[derive(Clone, Copy, Debug, PartialEq, Eq, Structural)]
pub enum Tag {
    PrintableString,
    Utf8String,
    Ia5String,
    TeletexString,
    Other,
}

/// One part of a name, such as the country or the organization.
#[derive(Debug)]
pub struct AttributeTypeAndValue {
    /// What the part is, as an object identifier.
    pub oid: String,
    /// The kind of the value.
    pub tag: Tag,
    /// The value as text, where it is a string and can be read as one.
    pub text: Option<String>,
    /// The DER encoding of the value.
    pub der: Vec<u8>,
}

/// A set of parts of a name that belong together.
#[derive(Debug)]
pub struct RelativeDistinguishedName {
    pub atvs: Vec<AttributeTypeAndValue>,
}

/// The name of an issuer or a subject.
#[derive(Debug)]
pub struct Name {
    pub rdns: Vec<RelativeDistinguishedName>,
}

/// An X.509 certificate.
#[derive(Debug)]
pub struct Certificate {
    /// The version as encoded: 0 for version 1.
    pub version: u8,
    pub serial_number: Vec<u8>,
    pub issuer: Name,
    pub subject: Name,
    /// Object identifier of the signature algorithm.
    pub signature_algorithm: String,
    /// Start of the validity, in seconds since 1970.
    pub not_before: u64,
    /// End of the validity, in seconds since 1970.
    pub not_after: u64,
    /// The DER encoding of the certificate.
    pub der: Vec<u8>,
}

impl AttributeTypeAndValue {
    /// The value as text, for the kinds of string that a name is printed
    /// with.
    pub open spec fn printable(self) -> Option<Seq<char>> {
        match (self.tag, self.text) {
            (Tag::Other, _) => None,
            (_, Some(text)) => Some(text@),
            (_, None) => None,
        }
    }

    /// The part as it is printed: the short name of its identifier in upper
    /// case, `=`, and the text; or, where the identifier has no name or the
    /// value is no text, the identifier, `=#`, and the encoding of the value
    /// in hexadecimal.
    pub open spec fn printed(self) -> Seq<char> {
        match (shortest_name(self.oid@), self.printable()) {
            (Some(key), Some(val)) => upper_ascii(key) + "="@ + val,
            _ => self.oid@ + "=#"@ + hex_lower(self.der@),
        }
    }

    /// What makes two parts the same: the identifier and the encoding of
    /// the value.
    pub open spec fn key(self) -> (Seq<char>, Seq<u8>) {
        (self.oid@, self.der@)
    }
}

/// The first `n` parts of a set, as they are printed, one after the other.
pub open spec fn printed_parts(atvs: Seq<AttributeTypeAndValue>, n: int) -> Seq<char>
    decreases n,
{
    if n <= 0 || n > atvs.len() {
        Seq::empty()
    } else {
        printed_parts(atvs, n - 1) + atvs[n - 1].printed()
    }
}

/// The first `n` sets of a name, as they are printed: each a slash and its
/// parts.
pub open spec fn printed_name(rdns: Seq<RelativeDistinguishedName>, n: int) -> Seq<char>
    decreases n,
{
    if n <= 0 || n > rdns.len() {
        Seq::empty()
    } else {
        printed_name(rdns, n - 1) + "/"@ + printed_parts(
            rdns[n - 1].atvs@,
            rdns[n - 1].atvs@.len() as int,
        )
    }
}

/// What makes two sets of parts the same.
pub open spec fn rdn_key(rdn: RelativeDistinguishedName) -> Seq<(Seq<char>, Seq<u8>)> {
    Seq::new(rdn.atvs@.len(), |i: int| rdn.atvs@[i].key())
}

impl Name {
    /// What makes two names the same: their parts, set by set.
    pub open spec fn key(self) -> Seq<Seq<(Seq<char>, Seq<u8>)>> {
        Seq::new(self.rdns@.len(), |i: int| rdn_key(self.rdns@[i]))
    }

    /// Tells whether two names are the same.
    pub fn same_as(&self, other: &Name) -> (same: bool)
        ensures
            same == (self.key() == other.key()),
    {
        if self.rdns.len() != other.rdns.len() {
            assert(self.key().len() != other.key().len());
            return false;
        }
        let mut i: usize = 0;
        while i < self.rdns.len()
            invariant
                i <= self.rdns@.len(),
                self.rdns@.len() == other.rdns@.len(),
                forall|j: int| 0 <= j < i ==> self.key()[j] == other.key()[j],
            decreases self.rdns@.len() - i,
        {
            if !same_rdn(&self.rdns[i], &other.rdns[i]) {
                assert(self.key()[i as int] != other.key()[i as int]);
                return false;
            }
            i += 1;
        }
        assert(self.key() =~= other.key());
        true
    }
}

/// Tells whether two sets of parts are the same.
pub fn same_rdn(a: &RelativeDistinguishedName, b: &RelativeDistinguishedName) -> (same: bool)
    ensures
        same == (rdn_key(*a) == rdn_key(*b)),
{
    if a.atvs.len() != b.atvs.len() {
        assert(rdn_key(*a).len() != rdn_key(*b).len());
        return false;
    }
    let mut i: usize = 0;
    while i < a.atvs.len()
        invariant
            i <= a.atvs@.len(),
            a.atvs@.len() == b.atvs@.len(),
            forall|j: int| 0 <= j < i ==> rdn_key(*a)[j] == rdn_key(*b)[j],
        decreases a.atvs@.len() - i,
    {
        let x = &a.atvs[i];
        let y = &b.atvs[i];
        if !string_equal(x.oid.as_str(), y.oid.as_str()) || !bytes_equal(
            x.der.as_slice(),
            y.der.as_slice(),
        ) {
            assert(rdn_key(*a)[i as int] != rdn_key(*b)[i as int]);
            return false;
        }
        i += 1;
    }
    assert(rdn_key(*a) =~= rdn_key(*b));
    true
}

/// Produces the text of a part of a name.
pub fn format_atv(atv: &AttributeTypeAndValue) -> (text: String)
    ensures
        text@ == atv.printed(),
{
    let val = match atv.tag {
        Tag::Other => None,
        _ => match &atv.text {
            Some(text) => Some(text.as_str()),
            None => None,
        },
    };
    match (shortest_name_by_oid(atv.oid.as_str()), val) {
        (Some(key), Some(val)) => {
            let mut text = to_ascii_uppercase(key.as_str());
            text.append("=");
            text.append(val);
            text
        },
        _ => {
            let mut text = atv.oid.clone();
            text.append("=#");
            let hex = bytes2hex(atv.der.as_slice());
            text.append(hex.as_str());
            text
        },
    }
}

/// Produces the text of a name, in the form that OpenSSL made common:
///
/// ```text
/// /C=ZA/ST=Western Cape/L=Durbanville/O=Thawte/CN=Thawte Timestamping CA
/// ```
pub fn format_name(name: &Name) -> (text: String)
    ensures
        text@ == printed_name(name.rdns@, name.rdns@.len() as int),
{
    let mut n = String::new();
    let mut i: usize = 0;
    while i < name.rdns.len()
        invariant
            i <= name.rdns@.len(),
            n@ == printed_name(name.rdns@, i as int),
        decreases name.rdns@.len() - i,
    {
        let rdn = &name.rdns[i];
        n.append("/");
        let ghost head = n@;
        let mut j: usize = 0;
        while j < rdn.atvs.len()
            invariant
                j <= rdn.atvs@.len(),
                n@ == head + printed_parts(rdn.atvs@, j as int),
            decreases rdn.atvs@.len() - j,
        {
            let part = format_atv(&rdn.atvs[j]);
            n.append(part.as_str());
            assert(n@ =~= head + printed_parts(rdn.atvs@, j + 1));
            j += 1;
        }
        assert(n@ =~= printed_name(name.rdns@, i + 1));
        i += 1;
    }
    n
}

/// The position of the first certificate, at or after `i`, with the serial
/// number `serial`.
pub open spec fn first_with_serial(certs: Seq<&Certificate>, serial: Seq<u8>, i: int) -> Option<int>
    decreases certs.len() - i,
{
    if i < 0 || i >= certs.len() {
        None
    } else if certs[i].serial_number@ == serial {
        Some(i)
    } else {
        first_with_serial(certs, serial, i + 1)
    }
}

/// The position of the first certificate, at or after `i`, whose subject
/// is `name`.
pub open spec fn first_with_subject(
    certs: Seq<&Certificate>,
    name: Seq<Seq<(Seq<char>, Seq<u8>)>>,
    i: int,
) -> Option<int>
    decreases certs.len() - i,
{
    if i < 0 || i >= certs.len() {
        None
    } else if certs[i].subject.key() == name {
        Some(i)
    } else {
        first_with_subject(certs, name, i + 1)
    }
}

/// The chain that starts at the certificate `at`: the certificate, then
/// the first certificate whose subject is its issuer, and so on, until a
/// certificate is its own issuer, or no certificate has the issuer as its
/// subject, or `more` further certificates were taken.
pub open spec fn chain_from(certs: Seq<&Certificate>, at: int, more: nat) -> Seq<int>
    decreases more,
{
    if at < 0 || at >= certs.len() {
        Seq::empty()
    } else if more == 0 || certs[at].subject.key() == certs[at].issuer.key() {
        seq![at]
    } else {
        match first_with_subject(certs, certs[at].issuer.key(), 0) {
            Some(next) => seq![at] + chain_from(certs, next, (more - 1) as nat),
            None => seq![at],
        }
    }
}

/// The chain of the certificate with the serial number `serial`, as
/// positions among `certs`: empty where no certificate has the serial
/// number. The chain never has more certificates than there are.
pub open spec fn chain_of(certs: Seq<&Certificate>, serial: Seq<u8>) -> Seq<int> {
    match first_with_serial(certs, serial, 0) {
        Some(at) => chain_from(certs, at, (certs.len() - 1) as nat),
        None => Seq::empty(),
    }
}

/// The certificates at the given positions.
pub open spec fn picked<'a>(certs: Seq<&'a Certificate>, at: Seq<int>) -> Seq<&'a Certificate> {
    Seq::new(at.len(), |i: int| certs[at[i]])
}

/// What `first_with_subject` finds is a position among the certificates.
pub proof fn lemma_first_with_subject(
    certs: Seq<&Certificate>,
    name: Seq<Seq<(Seq<char>, Seq<u8>)>>,
    i: int,
)
    requires
        0 <= i,
    ensures
        first_with_subject(certs, name, i) matches Some(j) ==> i <= j < certs.len(),
    decreases certs.len() - i,
{
    if i < certs.len() && certs[i].subject.key() != name {
        lemma_first_with_subject(certs, name, i + 1);
    }
}

/// Returns the chain of the certificate with the given serial number: that
/// certificate first, then the certificate of its issuer, and so on up to
/// the highest certificate among `certs`.
pub fn build_chain<'a>(certs: &Vec<&'a Certificate>, serial: &[u8]) -> (chain: Vec<&'a Certificate>)
    ensures
        chain@ == picked(certs@, chain_of(certs@, serial@)),
{
    let mut chain: Vec<&'a Certificate> = Vec::new();
    let mut found: Option<usize> = None;
    let mut i: usize = 0;
    while i < certs.len() && found.is_none()
        invariant
            i <= certs@.len(),
            match found {
                Some(at) => first_with_serial(certs@, serial@, 0) == Some(at as int) && at
                    < certs@.len(),
                None => first_with_serial(certs@, serial@, 0) == first_with_serial(
                    certs@,
                    serial@,
                    i as int,
                ),
            },
        decreases certs@.len() - i + if found is None {
            1int
        } else {
            0int
        },
    {
        if bytes_equal(certs[i].serial_number.as_slice(), serial) {
            found = Some(i);
        } else {
            i += 1;
        }
    }
    let mut at = match found {
        Some(at) => at,
        None => {
            assert(chain@ =~= picked(certs@, chain_of(certs@, serial@)));
            return chain;
        },
    };
    let ghost goal = chain_of(certs@, serial@);
    let ghost mut done: Seq<int> = Seq::empty();
    let mut more: usize = certs.len() - 1;
    loop
        invariant_except_break
            goal == done + chain_from(certs@, at as int, more as nat),
            chain@ == picked(certs@, done),
        invariant
            at < certs@.len(),
            more < certs@.len(),
            goal == chain_of(certs@, serial@),
        ensures
            chain@ == picked(certs@, goal),
        decreases more,
    {
        let cert = certs[at];
        chain.push(cert);
        proof {
            assert(chain@ =~= picked(certs@, done.push(at as int)));
        }
        if more == 0 || cert.subject.same_as(&cert.issuer) {
            proof {
                assert(done + seq![at as int] =~= done.push(at as int));
                assert(goal == done.push(at as int));
            }
            break;
        }
        let mut next: Option<usize> = None;
        let mut j: usize = 0;
        while j < certs.len() && next.is_none()
            invariant
                j <= certs@.len(),
                match next {
                    Some(n) => first_with_subject(certs@, cert.issuer.key(), 0) == Some(n as int)
                        && n < certs@.len(),
                    None => first_with_subject(certs@, cert.issuer.key(), 0) == first_with_subject(
                        certs@,
                        cert.issuer.key(),
                        j as int,
                    ),
                },
            decreases certs@.len() - j + if next is None {
                1int
            } else {
                0int
            },
        {
            if certs[j].subject.same_as(&cert.issuer) {
                next = Some(j);
            } else {
                j += 1;
            }
        }
        match next {
            Some(n) => {
                proof {
                    assert(done + (seq![at as int] + chain_from(certs@, n as int, (more - 1) as nat))
                        =~= done.push(at as int) + chain_from(
                        certs@,
                        n as int,
                        (more - 1) as nat,
                    ));
                    done = done.push(at as int);
                }
                at = n;
                more = more - 1;
            },
            None => {
                proof {
                    assert(done + seq![at as int] =~= done.push(at as int));
                    assert(goal == done.push(at as int));
                }
                break;
            },
        }
    }
    chain
}

/// The issuer of a certificate and the serial number that the issuer gave
/// it.
#[derive(Debug)]
pub struct IssuerAndSerialNumber {
    pub issuer: Name,
    pub serial_number: Vec<u8>,
}

/// How a signer names its certificate.
#[derive(Debug)]
pub enum SignerIdentifier {
    IssuerAndSerialNumber(IssuerAndSerialNumber),
    SubjectKeyIdentifier(Vec<u8>),
}

/// ASN.1 SpcString
///
/// ```text
/// SpcString ::= CHOICE {
///     unicode                 [0] IMPLICIT BMPSTRING,
///     ascii                   [1] IMPLICIT IA5STRING
/// }
/// ```
#[derive(Debug)]
pub enum SpcString {
    Unicode(String),
    Ascii(String),
}

/// ASN.1 SpcLink
///
/// ```text
/// SpcLink ::= CHOICE {
///     url                     [0] IMPLICIT IA5STRING,
///     moniker                 [1] IMPLICIT SpcSerializedObject,
///     file                    [2] EXPLICIT SpcString
/// }
/// ```
#[derive(Debug)]
pub enum SpcLink {
    Url(String),
}

/// ASN.1 SpcSpOpusInfo
///
/// ```text
/// SpcSpOpusInfo ::= SEQUENCE {
///     programName              [0] EXPLICIT SpcString OPTIONAL,
///     moreInfo                 [1] EXPLICIT SpcLink OPTIONAL,
/// }
/// ```
#[derive(Debug)]
pub struct SpcSpOpusInfo {
    pub program_name: Option<SpcString>,
    pub more_info: Option<SpcLink>,
}

/// ASN.1 DigestInfo
///
/// ```text
/// DigestInfo ::= SEQUENCE {
///     digestAlgorithm         AlgorithmIdentifier,
///     digest                  OCTETSTRING
/// }
/// ```
#[derive(Debug)]
pub struct DigestInfo {
    /// Object identifier of the Authenticode digest algorithm.
    pub digest_algorithm: String,
    /// Authenticode digest.
    pub digest: Vec<u8>,
}

/// ASN.1 SpcAttributeTypeAndOptionalValue
///
/// ```text
/// SpcAttributeTypeAndOptionalValue ::= SEQUENCE {
///     type                    ObjectID,
///     value                   [0] EXPLICIT ANY OPTIONAL
/// }
/// ```
#[derive(Debug)]
pub struct SpcAttributeTypeAndOptionalValue {
    /// Type of data stored in the `value` field.
    pub value_type: String,
    pub value: Vec<u8>,
}

/// ASN.1 SpcIndirectDataContent
///
/// ```text
/// SpcIndirectDataContent ::= SEQUENCE {
///     data                    SpcAttributeTypeAndOptionalValue,
///     messageDigest           DigestInfo
/// }
/// ```
#[derive(Debug)]
pub struct SpcIndirectDataContent {
    /// Image data.
    pub data: SpcAttributeTypeAndOptionalValue,
    /// Authenticode digest.
    pub message_digest: DigestInfo,
}

/// What a timestamp token says was stamped.
#[derive(Debug)]
pub struct TstInfo {
    /// Object identifier of the hash algorithm.
    pub hash_algorithm: String,
    pub hashed_message: Vec<u8>,
}

/// A value of an attribute of a countersignature.
#[derive(Debug)]
pub struct CounterValue {
    /// The bytes of the value, without tag and length.
    pub content: Vec<u8>,
    /// The value as a time, in seconds since 1970, where it is one.
    pub utc_time: Option<u64>,
}

/// An attribute of a countersignature.
#[derive(Debug)]
pub struct CounterAttribute {
    pub oid: String,
    pub values: Vec<CounterValue>,
}

/// A countersignature: the information on the signer of a signature.
#[derive(Debug)]
pub struct Countersignature {
    pub sid: SignerIdentifier,
    /// Object identifier of the digest algorithm.
    pub digest_alg: String,
    pub signed_attrs: Option<Vec<CounterAttribute>>,
}

/// A timestamp token: signed data whose content says what was stamped.
#[derive(Debug)]
pub struct TimestampToken {
    pub certificates: Vec<Certificate>,
    /// The first signer of the token, if it has one.
    pub signer: Option<Countersignature>,
    /// The content of the token, where it can be read.
    pub tst_info: Option<TstInfo>,
}

/// A value of an attribute of a signer, with what it decodes to.
#[derive(Debug)]
pub struct AttributeValue {
    /// The bytes of the value, without tag and length.
    pub content: Vec<u8>,
    /// The value as an octet string, where it is one.
    pub octet_string: Option<Vec<u8>>,
    /// The value as `SpcSpOpusInfo`, where it is one.
    pub opus_info: Option<SpcSpOpusInfo>,
    /// The value as content info, where it is one: the position of that
    /// content info among all that were decoded.
    pub nested: Option<usize>,
    /// The value as a timestamp token, where it is one.
    pub timestamp_token: Option<TimestampToken>,
    /// The value as a countersignature, where it is one.
    pub countersignature: Option<Countersignature>,
}

/// An attribute of a signer.
#[derive(Debug)]
pub struct Attribute {
    pub oid: String,
    pub values: Vec<AttributeValue>,
}

/// The information on a signer.
#[derive(Debug)]
pub struct SignerInfo {
    pub version: u8,
    pub sid: SignerIdentifier,
    /// Object identifier of the digest algorithm.
    pub digest_alg: String,
    pub signed_attrs: Option<Vec<Attribute>>,
    pub unsigned_attrs: Option<Vec<Attribute>>,
}

/// Signed data. What failed to decode holds the message of the failure.
#[derive(Debug)]
pub struct SignedData {
    pub version: u8,
    /// Object identifiers of the digest algorithms.
    pub digest_algorithms: Vec<String>,
    /// Object identifier of the type of the encapsulated content.
    pub econtent_type: String,
    /// The encapsulated content, if there is one, decoded as
    /// `SpcIndirectDataContent`.
    pub econtent: Option<Result<SpcIndirectDataContent, String>>,
    pub signer_infos: Vec<SignerInfo>,
    pub certificates: Option<Vec<Certificate>>,
}

/// Content info. What failed to decode as signed data holds the message
/// of the failure.
#[derive(Debug)]
pub struct ContentInfo {
    /// Object identifier of the type of the content.
    pub content_type: String,
    pub content: Result<SignedData, String>,
}

/// What decoding the signature data gave.
#[derive(Debug)]
pub enum Decoded {
    /// The data is empty.
    Empty,
    /// The data is no content info; the message says why.
    Invalid(String),
    /// The content infos: the outermost first, and every nested one after
    /// the one that holds it.
    Content(Vec<ContentInfo>),
}

/// Error returned by [`AuthenticodeParser::parse`].
#[derive(Debug)]
pub enum ParseError {
    /// The signature data is empty.
    Empty,
    /// The signature data is not valid content info.
    InvalidContentInfo(String),
    /// The content type is not that of signed data.
    InvalidContentType(String),
    /// The content info is not valid signed data.
    InvalidSignedData(String),
    /// The version of the signed data is not 1.
    InvalidSignedDataVersion(u8),
    /// The number of digest algorithms is not 1.
    InvalidNumDigestAlgorithms(usize),
    /// The encapsulated content type is not `SPC_INDIRECT_DATA_OBJID`.
    InvalidEncapsulatedContentType(String),
    /// The encapsulated content is empty.
    EmptyEncapsulatedContent,
    /// The encapsulated content is not valid `SpcIndirectDataContent`.
    InvalidSpcIndirectDataContent(String),
    /// The number of signer infos is not 1.
    InvalidNumSignerInfo(usize),
    /// The version of the signer info is not 1.
    InvalidSignerInfoVersion(u8),
    /// The digest algorithm is not internally consistent.
    AlgorithmMismatch,
    /// No authenticated attributes are present.
    EmptyAuthenticatedAttributes,
    /// The `contentType` authenticated attribute is missing.
    MissingContentTypeAuthenticatedAttribute,
    /// The `messageDigest` authenticated attribute is missing.
    MissingMessageDigestAuthenticatedAttribute,
    /// The digest algorithm of the signer is neither SHA-1 nor SHA-256, so
    /// that the digest of the file cannot be computed.
    UnsupportedDigestAlgorithm(String),
}

/// A `ParseError` as plain values.
pub enum ParseFailure {
    Empty,
    InvalidContentInfo(Seq<char>),
    InvalidContentType(Seq<char>),
    InvalidSignedData(Seq<char>),
    InvalidSignedDataVersion(u8),
    InvalidNumDigestAlgorithms(usize),
    InvalidEncapsulatedContentType(Seq<char>),
    EmptyEncapsulatedContent,
    InvalidSpcIndirectDataContent(Seq<char>),
    InvalidNumSignerInfo(usize),
    InvalidSignerInfoVersion(u8),
    AlgorithmMismatch,
    EmptyAuthenticatedAttributes,
    MissingContentTypeAuthenticatedAttribute,
    MissingMessageDigestAuthenticatedAttribute,
    UnsupportedDigestAlgorithm(Seq<char>),
}

impl View for ParseError {
    type V = ParseFailure;

    open spec fn view(&self) -> ParseFailure {
        match *self {
            ParseError::Empty => ParseFailure::Empty,
            ParseError::InvalidContentInfo(m) => ParseFailure::InvalidContentInfo(m@),
            ParseError::InvalidContentType(o) => ParseFailure::InvalidContentType(o@),
            ParseError::InvalidSignedData(m) => ParseFailure::InvalidSignedData(m@),
            ParseError::InvalidSignedDataVersion(v) => ParseFailure::InvalidSignedDataVersion(v),
            ParseError::InvalidNumDigestAlgorithms(n) => ParseFailure::InvalidNumDigestAlgorithms(
                n,
            ),
            ParseError::InvalidEncapsulatedContentType(
                o,
            ) => ParseFailure::InvalidEncapsulatedContentType(o@),
            ParseError::EmptyEncapsulatedContent => ParseFailure::EmptyEncapsulatedContent,
            ParseError::InvalidSpcIndirectDataContent(
                m,
            ) => ParseFailure::InvalidSpcIndirectDataContent(m@),
            ParseError::InvalidNumSignerInfo(n) => ParseFailure::InvalidNumSignerInfo(n),
            ParseError::InvalidSignerInfoVersion(v) => ParseFailure::InvalidSignerInfoVersion(v),
            ParseError::AlgorithmMismatch => ParseFailure::AlgorithmMismatch,
            ParseError::EmptyAuthenticatedAttributes => ParseFailure::EmptyAuthenticatedAttributes,
            ParseError::MissingContentTypeAuthenticatedAttribute => ParseFailure::MissingContentTypeAuthenticatedAttribute,
            ParseError::MissingMessageDigestAuthenticatedAttribute => ParseFailure::MissingMessageDigestAuthenticatedAttribute,
            ParseError::UnsupportedDigestAlgorithm(o) => ParseFailure::UnsupportedDigestAlgorithm(
                o@,
            ),
        }
    }
}

impl SpcString {
    /// The text of the string.
    pub open spec fn text(self) -> Seq<char> {
        match self {
            SpcString::Unicode(s) => s@,
            SpcString::Ascii(s) => s@,
        }
    }

    /// The text of the string.
    pub fn to_text(&self) -> (text: String)
        ensures
            text@ == self.text(),
    {
        match self {
            SpcString::Unicode(s) => s.clone(),
            SpcString::Ascii(s) => s.clone(),
        }
    }
}

/// The position of the first attribute, at or after `i`, with the object
/// identifier `oid`.
pub open spec fn first_attribute(attrs: Seq<Attribute>, oid: Seq<char>, i: int) -> Option<int>
    decreases attrs.len() - i,
{
    if i < 0 || i >= attrs.len() {
        None
    } else if attrs[i].oid@ == oid {
        Some(i)
    } else {
        first_attribute(attrs, oid, i + 1)
    }
}

/// What `first_attribute` finds is a position among the attributes.
pub proof fn lemma_first_attribute(attrs: Seq<Attribute>, oid: Seq<char>, i: int)
    requires
        0 <= i,
    ensures
        first_attribute(attrs, oid, i) matches Some(j) ==> i <= j < attrs.len() && attrs[j].oid@
            == oid,
    decreases attrs.len() - i,
{
    if i < attrs.len() && attrs[i].oid@ != oid {
        lemma_first_attribute(attrs, oid, i + 1);
    }
}

/// Finds the first attribute with the given object identifier.
pub fn find_attribute<'a>(attrs: &'a Vec<Attribute>, oid: &str) -> (found: Option<&'a Attribute>)
    ensures
        match found {
            Some(a) => first_attribute(attrs@, oid@, 0) matches Some(j) && 0 <= j < attrs@.len()
                && *a == attrs@[j],
            None => first_attribute(attrs@, oid@, 0) is None,
        },
{
    let mut i: usize = 0;
    while i < attrs.len()
        invariant
            i <= attrs@.len(),
            first_attribute(attrs@, oid@, 0) == first_attribute(attrs@, oid@, i as int),
        decreases attrs@.len() - i,
    {
        if string_equal(attrs[i].oid.as_str(), oid) {
            return Some(&attrs[i]);
        }
        i += 1;
    }
    None
}

/// The first value of the first attribute with the object identifier
/// `oid`.
pub open spec fn first_value(attrs: Seq<Attribute>, oid: Seq<char>) -> Option<AttributeValue> {
    match first_attribute(attrs, oid, 0) {
        Some(j) => if attrs[j].values@.len() > 0 {
            Some(attrs[j].values@[0])
        } else {
            None
        },
        None => None,
    }
}

/// The digest that the signer put in its `messageDigest` attribute.
pub open spec fn message_digest(attrs: Seq<Attribute>) -> Option<Seq<u8>> {
    match first_value(attrs, ID_MESSAGE_DIGEST@) {
        Some(value) => match value.octet_string {
            Some(bytes) => Some(bytes@),
            None => None,
        },
        None => None,
    }
}

/// The name of the program that the signer put in its `SpcSpOpusInfo`
/// attribute.
pub open spec fn named_program(attrs: Seq<Attribute>) -> Option<SpcString> {
    match first_value(attrs, SPC_SP_OPUS_INFO_OBJID@) {
        Some(value) => match value.opus_info {
            Some(info) => info.program_name,
            None => None,
        },
        None => None,
    }
}

/// The algorithm with which the digest of the file is computed for a
/// signer with the digest algorithm `oid`.
pub open spec fn file_algorithm(oid: Seq<char>) -> Option<FileDigestAlgorithm> {
    if oid == crate::modules::pe::names::ID_SHA_1@ {
        Some(FileDigestAlgorithm::Sha1)
    } else if oid == crate::modules::pe::names::ID_SHA_256@ {
        Some(FileDigestAlgorithm::Sha256)
    } else {
        None
    }
}

/// Why signed data is no Authenticode signature, or nothing if it is one.
/// The checks stand in the order in which they are made; the first that
/// fails gives the error.
pub open spec fn rejection(info: ContentInfo) -> Option<ParseFailure> {
    match info.content {
        Err(message) => Some(ParseFailure::InvalidSignedData(message@)),
        Ok(data) => if data.version != 1 {
            Some(ParseFailure::InvalidSignedDataVersion(data.version))
        } else if data.digest_algorithms@.len() != 1 {
            Some(ParseFailure::InvalidNumDigestAlgorithms(data.digest_algorithms@.len() as usize))
        } else if data.signer_infos@.len() != 1 {
            Some(ParseFailure::InvalidNumSignerInfo(data.signer_infos@.len() as usize))
        } else if data.econtent_type@ != SPC_INDIRECT_DATA_OBJID@ {
            Some(ParseFailure::InvalidEncapsulatedContentType(data.econtent_type@))
        } else {
            match data.econtent {
                None => Some(ParseFailure::EmptyEncapsulatedContent),
                Some(Err(message)) => Some(ParseFailure::InvalidSpcIndirectDataContent(message@)),
                Some(Ok(_)) => {
                    let signer = data.signer_infos@[0];
                    if signer.version != 1 {
                        Some(ParseFailure::InvalidSignerInfoVersion(signer.version))
                    } else if signer.digest_alg@ != data.digest_algorithms@[0]@ {
                        Some(ParseFailure::AlgorithmMismatch)
                    } else {
                        match signer.signed_attrs {
                            None => Some(ParseFailure::EmptyAuthenticatedAttributes),
                            Some(attrs) => if first_attribute(attrs@, ID_CONTENT_TYPE@, 0)
                                is None {
                                Some(ParseFailure::MissingContentTypeAuthenticatedAttribute)
                            } else if message_digest(attrs@) is None {
                                Some(ParseFailure::MissingMessageDigestAuthenticatedAttribute)
                            } else if file_algorithm(signer.digest_alg@) is None {
                                Some(ParseFailure::UnsupportedDigestAlgorithm(signer.digest_alg@))
                            } else {
                                None
                            },
                        }
                    }
                },
            }
        },
    }
}

/// The parts of signed data that is an Authenticode signature.
pub struct Checked<'a> {
    pub signed_data: &'a SignedData,
    pub signer_info: &'a SignerInfo,
    pub indirect_data: &'a SpcIndirectDataContent,
    pub signed_attrs: &'a Vec<Attribute>,
    pub signer_info_digest: &'a Vec<u8>,
    pub file_algorithm: FileDigestAlgorithm,
}

/// Checks that signed data is an Authenticode signature, and hands out its
/// parts.
pub fn check_signed_data<'a>(info: &'a ContentInfo) -> (r: Result<Checked<'a>, ParseError>)
    ensures
        match r {
            Ok(parts) => {
                &&& rejection(*info) is None
                &&& info.content matches Ok(data)
                &&& *parts.signed_data == data
                &&& *parts.signer_info == data.signer_infos@[0]
                &&& data.econtent == Some(
                    Ok::<SpcIndirectDataContent, String>(*parts.indirect_data),
                )
                &&& parts.signer_info.signed_attrs == Some(*parts.signed_attrs)
                &&& Some(parts.signer_info_digest@) == message_digest(parts.signed_attrs@)
                &&& Some(parts.file_algorithm) == file_algorithm(parts.signer_info.digest_alg@)
            },
            Err(e) => rejection(*info) == Some(e@),
        },
{
    let signed_data = match &info.content {
        Ok(data) => data,
        Err(message) => {
            return Err(ParseError::InvalidSignedData(message.clone()));
        },
    };
    if signed_data.version != 1 {
        return Err(ParseError::InvalidSignedDataVersion(signed_data.version));
    }
    // According to the specification, signed data must hold exactly one
    // digest algorithm, and it must be that of the signer.
    if signed_data.digest_algorithms.len() != 1 {
        return Err(ParseError::InvalidNumDigestAlgorithms(signed_data.digest_algorithms.len()));
    }
    // Exactly one signer, as the specification requires.
    if signed_data.signer_infos.len() != 1 {
        return Err(ParseError::InvalidNumSignerInfo(signed_data.signer_infos.len()));
    }
    if !string_equal(signed_data.econtent_type.as_str(), SPC_INDIRECT_DATA_OBJID) {
        return Err(ParseError::InvalidEncapsulatedContentType(signed_data.econtent_type.clone()));
    }
    let indirect_data = match &signed_data.econtent {
        None => {
            return Err(ParseError::EmptyEncapsulatedContent);
        },
        Some(Err(message)) => {
            return Err(ParseError::InvalidSpcIndirectDataContent(message.clone()));
        },
        Some(Ok(indirect_data)) => indirect_data,
    };
    let signer_info = &signed_data.signer_infos[0];
    if signer_info.version != 1 {
        return Err(ParseError::InvalidSignerInfoVersion(signer_info.version));
    }
    if !string_equal(signer_info.digest_alg.as_str(), signed_data.digest_algorithms[0].as_str()) {
        return Err(ParseError::AlgorithmMismatch);
    }
    let signed_attrs = match &signer_info.signed_attrs {
        Some(attrs) => attrs,
        None => {
            return Err(ParseError::EmptyAuthenticatedAttributes);
        },
    };
    // The contentType attribute must be present.
    if find_attribute(signed_attrs, ID_CONTENT_TYPE).is_none() {
        return Err(ParseError::MissingContentTypeAuthenticatedAttribute);
    }
    let signer_info_digest = match find_attribute(signed_attrs, ID_MESSAGE_DIGEST) {
        Some(attr) => if attr.values.len() > 0 {
            match &attr.values[0].octet_string {
                Some(bytes) => bytes,
                None => {
                    return Err(ParseError::MissingMessageDigestAuthenticatedAttribute);
                },
            }
        } else {
            return Err(ParseError::MissingMessageDigestAuthenticatedAttribute);
        },
        None => {
            return Err(ParseError::MissingMessageDigestAuthenticatedAttribute);
        },
    };
    let file_algorithm = if string_equal(
        signer_info.digest_alg.as_str(),
        crate::modules::pe::names::ID_SHA_1,
    ) {
        FileDigestAlgorithm::Sha1
    } else if string_equal(signer_info.digest_alg.as_str(), crate::modules::pe::names::ID_SHA_256) {
        FileDigestAlgorithm::Sha256
    } else {
        return Err(ParseError::UnsupportedDigestAlgorithm(signer_info.digest_alg.clone()));
    };
    Ok(
        Checked {
            signed_data,
            signer_info,
            indirect_data,
            signed_attrs,
            signer_info_digest,
            file_algorithm,
        },
    )
}

/// A countersignature as plain values.
pub struct CountersignModel {
    pub signer: SignerIdentifier,
    pub digest_alg: Option<Seq<char>>,
    pub digest: Option<Seq<char>>,
    pub signing_time: Option<u64>,
}

/// A countersignature of an Authenticode signature.
#[derive(Debug)]
pub struct AuthenticodeCountersign<'a> {
    /// The certificate of the one who countersigned.
    pub signer: &'a SignerIdentifier,
    /// The name of the digest algorithm, where it is one that is known.
    pub digest_alg: Option<&'static str>,
    /// The digest that was countersigned, in hexadecimal.
    pub digest: Option<String>,
    /// When the countersignature was made, in seconds since 1970.
    pub signing_time: Option<u64>,
}

impl<'a> View for AuthenticodeCountersign<'a> {
    type V = CountersignModel;

    open spec fn view(&self) -> CountersignModel {
        CountersignModel {
            signer: *self.signer,
            digest_alg: match self.digest_alg {
                Some(name) => Some(name@),
                None => None,
            },
            digest: match self.digest {
                Some(digest) => Some(digest@),
                None => None,
            },
            signing_time: self.signing_time,
        }
    }
}

/// The countersignatures of a list, as plain values.
pub open spec fn countersign_models(list: Seq<AuthenticodeCountersign>) -> Seq<CountersignModel> {
    Seq::new(list.len(), |i: int| list[i]@)
}

/// The certificates behind a list of references.
pub open spec fn certificates_of(list: Seq<&Certificate>) -> Seq<Certificate> {
    Seq::new(list.len(), |i: int| *list[i])
}

/// The digest that the first `n` attributes of a countersignature give:
/// that of the last `messageDigest` attribute with a value, in hexadecimal.
pub open spec fn counter_digest(attrs: Seq<CounterAttribute>, n: int) -> Option<Seq<char>>
    decreases n,
{
    if n <= 0 || n > attrs.len() {
        None
    } else if attrs[n - 1].oid@ == ID_MESSAGE_DIGEST@ && attrs[n - 1].values@.len() > 0 {
        Some(hex_lower(attrs[n - 1].values@[0].content@))
    } else {
        counter_digest(attrs, n - 1)
    }
}

/// The time of signing that the first `n` attributes of a countersignature
/// give: that of the last `signingTime` attribute with a value, where the
/// value is a time.
pub open spec fn counter_time(attrs: Seq<CounterAttribute>, n: int) -> Option<u64>
    decreases n,
{
    if n <= 0 || n > attrs.len() {
        None
    } else if attrs[n - 1].oid@ == ID_SIGNING_TIME@ && attrs[n - 1].values@.len() > 0 {
        attrs[n - 1].values@[0].utc_time
    } else {
        counter_time(attrs, n - 1)
    }
}

/// What a countersignature says.
pub open spec fn countersign_of(cs: Countersignature) -> CountersignModel {
    CountersignModel {
        signer: cs.sid,
        digest_alg: crate::modules::pe::names::algorithm_name(cs.digest_alg@),
        digest: match cs.signed_attrs {
            Some(attrs) => counter_digest(attrs@, attrs@.len() as int),
            None => None,
        },
        signing_time: match cs.signed_attrs {
            Some(attrs) => counter_time(attrs@, attrs@.len() as int),
            None => None,
        },
    }
}

/// What a timestamp token says, as a countersignature: what its signer
/// says, with the algorithm and the digest of what was stamped. Nothing
/// where the token has no signer or its content cannot be read.
pub open spec fn stamp_of(token: TimestampToken) -> Seq<CountersignModel> {
    match (token.signer, token.tst_info) {
        (Some(signer), Some(tst)) => seq![
            CountersignModel {
                digest_alg: crate::modules::pe::names::algorithm_name(tst.hash_algorithm@),
                digest: Some(hex_lower(tst.hashed_message@)),
                ..countersign_of(signer)
            },
        ],
        _ => Seq::empty(),
    }
}

/// The countersignatures that the first `n` values of an attribute give.
/// With `tokens` the values are read as timestamp tokens, else as
/// countersignatures.
pub open spec fn countersigns_of_values(values: Seq<AttributeValue>, n: int, tokens: bool) -> Seq<
    CountersignModel,
>
    decreases n,
{
    if n <= 0 || n > values.len() {
        Seq::empty()
    } else {
        countersigns_of_values(values, n - 1, tokens) + if tokens {
            match values[n - 1].timestamp_token {
                Some(token) => stamp_of(token),
                None => Seq::empty(),
            }
        } else {
            match values[n - 1].countersignature {
                Some(cs) => seq![countersign_of(cs)],
                None => Seq::empty(),
            }
        }
    }
}

/// The certificates that the timestamp tokens among the first `n` values
/// of an attribute bring.
pub open spec fn certificates_of_values(values: Seq<AttributeValue>, n: int) -> Seq<Certificate>
    decreases n,
{
    if n <= 0 || n > values.len() {
        Seq::empty()
    } else {
        certificates_of_values(values, n - 1) + match values[n - 1].timestamp_token {
            Some(token) => token.certificates@,
            None => Seq::empty(),
        }
    }
}

/// The countersignatures that the first `n` unsigned attributes of a
/// signer give, in the order of the attributes and of their values.
pub open spec fn countersigns_of(attrs: Seq<Attribute>, n: int) -> Seq<CountersignModel>
    decreases n,
{
    if n <= 0 || n > attrs.len() {
        Seq::empty()
    } else {
        let attr = attrs[n - 1];
        countersigns_of(attrs, n - 1) + if attr.oid@ == SPC_MS_COUNTERSIGN@ {
            countersigns_of_values(attr.values@, attr.values@.len() as int, true)
        } else if attr.oid@ == ID_COUNTERSIGNATURE@ {
            countersigns_of_values(attr.values@, attr.values@.len() as int, false)
        } else {
            Seq::empty()
        }
    }
}

/// The certificates that the timestamp tokens in the first `n` unsigned
/// attributes of a signer bring.
pub open spec fn certificates_in(attrs: Seq<Attribute>, n: int) -> Seq<Certificate>
    decreases n,
{
    if n <= 0 || n > attrs.len() {
        Seq::empty()
    } else {
        let attr = attrs[n - 1];
        certificates_in(attrs, n - 1) + if attr.oid@ == SPC_MS_COUNTERSIGN@ {
            certificates_of_values(attr.values@, attr.values@.len() as int)
        } else {
            Seq::empty()
        }
    }
}

/// Reads a countersignature: who signed, with which digest algorithm, the
/// digest, and the time of signing.
pub fn pkcs9_countersignature<'a>(cs: &'a Countersignature) -> (r: AuthenticodeCountersign<'a>)
    ensures
        r@ == countersign_of(*cs),
{
    let mut digest: Option<String> = None;
    let mut signing_time: Option<u64> = None;
    match &cs.signed_attrs {
        Some(signed_attrs) => {
            let mut i: usize = 0;
            while i < signed_attrs.len()
                invariant
                    i <= signed_attrs@.len(),
                    match digest {
                        Some(d) => Some(d@),
                        None => None,
                    } == counter_digest(signed_attrs@, i as int),
                    signing_time == counter_time(signed_attrs@, i as int),
                decreases signed_attrs@.len() - i,
            {
                let attr = &signed_attrs[i];
                proof {
                    reveal_strlit("1.2.840.113549.1.9.4");
                    reveal_strlit("1.2.840.113549.1.9.5");
                    assert(ID_MESSAGE_DIGEST@[19] == '4');
                    assert(ID_SIGNING_TIME@[19] == '5');
                    assert(ID_MESSAGE_DIGEST@ != ID_SIGNING_TIME@);
                }
                if string_equal(attr.oid.as_str(), ID_MESSAGE_DIGEST) {
                    if attr.values.len() > 0 {
                        digest = Some(bytes2hex(attr.values[0].content.as_slice()));
                    }
                } else if string_equal(attr.oid.as_str(), ID_SIGNING_TIME) {
                    if attr.values.len() > 0 {
                        signing_time = attr.values[0].utc_time;
                    }
                }
                i += 1;
            }
        },
        None => {},
    }
    AuthenticodeCountersign {
        signer: &cs.sid,
        digest_alg: crate::modules::pe::names::oid_to_algorithm_name(cs.digest_alg.as_str()),
        digest,
        signing_time,
    }
}

/// Collects the countersignatures of the values of an attribute, and adds
/// the certificates that timestamp tokens bring to `certificates`.
fn collect_from_values<'a>(
    values: &'a Vec<AttributeValue>,
    tokens: bool,
    certificates: &mut Vec<&'a Certificate>,
    countersignatures: &mut Vec<AuthenticodeCountersign<'a>>,
)
    ensures
        countersign_models(final(countersignatures)@) == countersign_models(
            old(countersignatures)@,
        ) + countersigns_of_values(values@, values@.len() as int, tokens),
        certificates_of(final(certificates)@) == certificates_of(old(certificates)@) + if tokens {
            certificates_of_values(values@, values@.len() as int)
        } else {
            Seq::empty()
        },
{
    let ghost signs0 = countersign_models(countersignatures@);
    let ghost certs0 = certificates_of(certificates@);
    let mut k: usize = 0;
    proof {
        assert(signs0 + Seq::<CountersignModel>::empty() =~= signs0);
        assert(certs0 + Seq::<Certificate>::empty() =~= certs0);
    }
    while k < values.len()
        invariant
            k <= values@.len(),
            signs0 == countersign_models(old(countersignatures)@),
            certs0 == certificates_of(old(certificates)@),
            countersign_models(countersignatures@) == signs0 + countersigns_of_values(
                values@,
                k as int,
                tokens,
            ),
            certificates_of(certificates@) == certs0 + if tokens {
                certificates_of_values(values@, k as int)
            } else {
                Seq::empty()
            },
        decreases values@.len() - k,
    {
        let value = &values[k];
        let ghost signs = countersign_models(countersignatures@);
        let ghost certs = certificates_of(certificates@);
        let ghost before = countersigns_of_values(values@, k as int, tokens);
        let ghost certs_before = certificates_of_values(values@, k as int);
        if tokens {
            match &value.timestamp_token {
                Some(token) => {
                    let mut c: usize = 0;
                    while c < token.certificates.len()
                        invariant
                            c <= token.certificates@.len(),
                            certificates_of(certificates@) == certs + token.certificates@.take(
                                c as int,
                            ),
                        decreases token.certificates@.len() - c,
                    {
                        let ghost held = certificates@;
                        certificates.push(&token.certificates[c]);
                        assert(certificates@ == held.push(&token.certificates@[c as int]));
                        assert(certificates_of(certificates@) =~= certificates_of(held).push(
                            token.certificates@[c as int],
                        ));
                        assert(token.certificates@.take(c + 1) =~= token.certificates@.take(
                            c as int,
                        ).push(token.certificates@[c as int]));
                        assert(certificates_of(certificates@) =~= certs
                            + token.certificates@.take(c + 1));
                        c += 1;
                    }
                    proof {
                        assert(token.certificates@.take(token.certificates@.len() as int)
                            =~= token.certificates@);
                        assert(certs0 + certs_before + token.certificates@ =~= certs0 + (
                        certs_before + token.certificates@));
                    }
                    match (&token.signer, &token.tst_info) {
                        (Some(signer), Some(tst)) => {
                            let mut cs = pkcs9_countersignature(signer);
                            cs.digest_alg = crate::modules::pe::names::oid_to_algorithm_name(
                                tst.hash_algorithm.as_str(),
                            );
                            cs.digest = Some(bytes2hex(tst.hashed_message.as_slice()));
                            countersignatures.push(cs);
                            proof {
                                assert(countersign_models(countersignatures@) =~= signs.push(
                                    stamp_of(*token)[0],
                                ));
                                assert(signs0 + before + stamp_of(*token) =~= signs0 + (before
                                    + stamp_of(*token)));
                            }
                        },
                        _ => {
                            proof {
                                assert(signs0 + before + stamp_of(*token) =~= signs0 + (before
                                    + stamp_of(*token)));
                            }
                        },
                    }
                },
                None => {
                    proof {
                        assert(before + Seq::<CountersignModel>::empty() =~= before);
                        assert(certs_before + Seq::<Certificate>::empty() =~= certs_before);
                    }
                },
            }
        } else {
            match &value.countersignature {
                Some(cs) => {
                    countersignatures.push(pkcs9_countersignature(cs));
                    proof {
                        assert(countersign_models(countersignatures@) =~= signs.push(
                            countersign_of(*cs),
                        ));
                        assert(signs0 + before + seq![countersign_of(*cs)] =~= signs0 + (before
                            + seq![countersign_of(*cs)]));
                    }
                },
                None => {
                    proof {
                        assert(before + Seq::<CountersignModel>::empty() =~= before);
                    }
                },
            }
        }
        k += 1;
    }
}

/// Collects the countersignatures in the unsigned attributes of a signer:
/// those of timestamp tokens and those of `countersignature` attributes, in
/// the order of the attributes. The certificates that timestamp tokens
/// bring are added to `certificates`.
pub fn collect_countersignatures<'a>(
    attrs: &'a Vec<Attribute>,
    certificates: &mut Vec<&'a Certificate>,
) -> (countersignatures: Vec<AuthenticodeCountersign<'a>>)
    ensures
        countersign_models(countersignatures@) == countersigns_of(attrs@, attrs@.len() as int),
        certificates_of(final(certificates)@) == certificates_of(old(certificates)@)
            + certificates_in(attrs@, attrs@.len() as int),
{
    let mut countersignatures: Vec<AuthenticodeCountersign<'a>> = Vec::new();
    let ghost certs0 = certificates_of(certificates@);
    let mut i: usize = 0;
    proof {
        assert(countersign_models(countersignatures@) =~= countersigns_of(attrs@, 0));
        assert(certs0 + Seq::<Certificate>::empty() =~= certs0);
    }
    while i < attrs.len()
        invariant
            i <= attrs@.len(),
            certs0 == certificates_of(old(certificates)@),
            countersign_models(countersignatures@) == countersigns_of(attrs@, i as int),
            certificates_of(certificates@) == certs0 + certificates_in(attrs@, i as int),
        decreases attrs@.len() - i,
    {
        let attr = &attrs[i];
        let ghost signs = countersigns_of(attrs@, i as int);
        let ghost certs = certificates_in(attrs@, i as int);
        if string_equal(attr.oid.as_str(), SPC_MS_COUNTERSIGN) {
            collect_from_values(&attr.values, true, certificates, &mut countersignatures);
            proof {
                let more = certificates_of_values(attr.values@, attr.values@.len() as int);
                assert(certs0 + certs + more =~= certs0 + (certs + more));
            }
        } else if string_equal(attr.oid.as_str(), ID_COUNTERSIGNATURE) {
            collect_from_values(&attr.values, false, certificates, &mut countersignatures);
            proof {
                reveal_strlit("1.3.6.1.4.1.311.3.3.1");
                reveal_strlit("1.2.840.113549.1.9.6");
                assert(SPC_MS_COUNTERSIGN@ != ID_COUNTERSIGNATURE@);
                assert(certs + Seq::<Certificate>::empty() =~= certs);
                assert(certificates_of(certificates@) =~= certs0 + certs);
            }
        } else {
            proof {
                assert(signs + Seq::<CountersignModel>::empty() =~= signs);
                assert(certs + Seq::<Certificate>::empty() =~= certs);
            }
        }
        i += 1;
    }
    countersignatures
}

/// An Authenticode signature as plain values.
pub struct SignatureModel {
    /// The position, among the content infos that were decoded, of the one
    /// that holds the signature.
    pub index: int,
    pub signer_info_digest: Seq<char>,
    pub file_digest: Seq<char>,
    pub certificates: Seq<Certificate>,
    pub countersignatures: Seq<CountersignModel>,
    pub program_name: Option<SpcString>,
}

/// An Authenticode signature.
#[derive(Debug)]
pub struct AuthenticodeSignature<'a> {
    /// The position, among the content infos that were decoded, of the one
    /// that holds the signature.
    pub index: usize,
    pub signer_info_digest: String,
    pub indirect_data: &'a SpcIndirectDataContent,
    pub signer_info: &'a SignerInfo,
    pub certificates: Vec<&'a Certificate>,
    pub countersignatures: Vec<AuthenticodeCountersign<'a>>,
    pub program_name: Option<&'a SpcString>,
    pub file_digest: String,
}

impl<'a> View for AuthenticodeSignature<'a> {
    type V = SignatureModel;

    open spec fn view(&self) -> SignatureModel {
        SignatureModel {
            index: self.index as int,
            signer_info_digest: self.signer_info_digest@,
            file_digest: self.file_digest@,
            certificates: certificates_of(self.certificates@),
            countersignatures: countersign_models(self.countersignatures@),
            program_name: match self.program_name {
                Some(name) => Some(*name),
                None => None,
            },
        }
    }
}

/// The signatures of a list, as plain values.
pub open spec fn signature_models(list: Seq<AuthenticodeSignature>) -> Seq<SignatureModel> {
    Seq::new(list.len(), |i: int| list[i]@)
}

/// The unsigned attributes of the signer of a content info that is an
/// Authenticode signature; none where it has none.
pub open spec fn unsigned_attributes(info: ContentInfo) -> Seq<Attribute> {
    match info.content {
        Ok(data) => if data.signer_infos@.len() > 0 {
            match data.signer_infos@[0].unsigned_attrs {
                Some(attrs) => attrs@,
                None => Seq::empty(),
            }
        } else {
            Seq::empty()
        },
        Err(_) => Seq::empty(),
    }
}

/// The signature that a content info holds itself, given that it is an
/// Authenticode signature. Its certificates are those of the signed data
/// followed by those of the timestamp tokens; `pe` are the bytes of the
/// file that enter its digest.
pub open spec fn own_signature(arena: Seq<ContentInfo>, i: int, pe: Seq<u8>) -> SignatureModel {
    let data = arena[i].content->Ok_0;
    let signer = data.signer_infos@[0];
    let attrs = signer.signed_attrs->0@;
    let unsigned = unsigned_attributes(arena[i]);
    SignatureModel {
        index: i,
        signer_info_digest: hex_lower(message_digest(attrs)->0),
        file_digest: hex_lower(
            crate::modules::pe::digests::file_digest_of(
                file_algorithm(signer.digest_alg@)->0,
                pe,
            ),
        ),
        certificates: match data.certificates {
            Some(certs) => certs@,
            None => Seq::empty(),
        } + certificates_in(unsigned, unsigned.len() as int),
        countersignatures: countersigns_of(unsigned, unsigned.len() as int),
        program_name: named_program(attrs),
    }
}

/// The content info that the attribute `k` names as a nested signature.
pub open spec fn nested_of(attrs: Seq<Attribute>, k: int) -> Option<usize> {
    if attrs[k].oid@ == SPC_MS_NESTED_SIGNATURE@ && attrs[k].values@.len() > 0 {
        attrs[k].values@[0].nested
    } else {
        None
    }
}

/// The signatures nested in the first `n` of the unsigned attributes
/// `attrs` of the content info `i`: those of every content info that an
/// attribute names, that stands after `i`, and that is an Authenticode
/// signature, in the order of the attributes.
pub open spec fn nested_signatures(
    arena: Seq<ContentInfo>,
    i: int,
    attrs: Seq<Attribute>,
    n: int,
    pe: Seq<u8>,
) -> Seq<SignatureModel>
    decreases arena.len() - i, 0int, n,
{
    if n <= 0 || n > attrs.len() {
        Seq::empty()
    } else {
        let before = nested_signatures(arena, i, attrs, n - 1, pe);
        match nested_of(attrs, n - 1) {
            Some(j) => if i < j < arena.len() {
                match signatures_at(arena, j as int, pe) {
                    Ok(list) => before + list,
                    Err(_) => before,
                }
            } else {
                before
            },
            None => before,
        }
    }
}

/// The signatures that the content info `i` gives: its own, then those
/// nested in it; or the reason why it is no Authenticode signature.
pub open spec fn signatures_at(arena: Seq<ContentInfo>, i: int, pe: Seq<u8>) -> Result<
    Seq<SignatureModel>,
    ParseFailure,
>
    decreases arena.len() - i, 1int, 0int,
{
    if i < 0 || i >= arena.len() {
        Err(ParseFailure::Empty)
    } else {
        match rejection(arena[i]) {
            Some(failure) => Err(failure),
            None => {
                let unsigned = unsigned_attributes(arena[i]);
                Ok(
                    seq![own_signature(arena, i, pe)] + nested_signatures(
                        arena,
                        i,
                        unsigned,
                        unsigned.len() as int,
                        pe,
                    ),
                )
            },
        }
    }
}

/// What parsing decoded signature data gives.
pub open spec fn parsed(decoded: Decoded, pe: Seq<u8>) -> Result<Seq<SignatureModel>, ParseFailure> {
    match decoded {
        Decoded::Empty => Err(ParseFailure::Empty),
        Decoded::Invalid(message) => Err(ParseFailure::InvalidContentInfo(message@)),
        Decoded::Content(arena) => if arena@.len() == 0 {
            Err(ParseFailure::Empty)
        } else if arena@[0].content_type@ != ID_SIGNED_DATA@ {
            Err(ParseFailure::InvalidContentType(arena@[0].content_type@))
        } else {
            signatures_at(arena@, 0, pe)
        },
    }
}

/// Every signature points into the content info that holds it.
pub open spec fn anchored(list: Seq<AuthenticodeSignature>, arena: Seq<ContentInfo>) -> bool {
    forall|k: int|
        0 <= k < list.len() ==> {
            let s = #[trigger] list[k];
            &&& s.index < arena.len()
            &&& rejection(arena[s.index as int]) is None
            &&& *s.signer_info == arena[s.index as int].content->Ok_0.signer_infos@[0]
            &&& arena[s.index as int].content->Ok_0.econtent == Some(
                Ok::<SpcIndirectDataContent, String>(*s.indirect_data),
            )
        }
}

/// Parses Authenticode signatures in a PE file.
pub struct AuthenticodeParser {}

impl AuthenticodeParser {
    /// Parses Authenticode signatures from decoded signature data. `pe`
    /// holds the bytes of the file that enter its Authenticode digest.
    pub fn parse<'a>(decoded: &'a Decoded, pe: &[u8]) -> (r: Result<
        Vec<AuthenticodeSignature<'a>>,
        ParseError,
    >)
        ensures
            match r {
                Ok(list) => {
                    &&& parsed(*decoded, pe@) == Ok::<Seq<SignatureModel>, ParseFailure>(
                        signature_models(list@),
                    )
                    &&& decoded is Content
                    &&& anchored(list@, decoded->Content_0@)
                },
                Err(e) => parsed(*decoded, pe@) == Err::<Seq<SignatureModel>, ParseFailure>(e@),
            },
    {
        match decoded {
            Decoded::Empty => Err(ParseError::Empty),
            Decoded::Invalid(message) => Err(ParseError::InvalidContentInfo(message.clone())),
            Decoded::Content(arena) => {
                if arena.len() == 0 {
                    return Err(ParseError::Empty);
                }
                if string_equal(arena[0].content_type.as_str(), ID_SIGNED_DATA) {
                    Self::parse_content_info(arena, 0, pe)
                } else {
                    Err(ParseError::InvalidContentType(arena[0].content_type.clone()))
                }
            },
        }
    }

    /// The signatures that the content info `i` gives: its own and those
    /// nested in it. A nested content info that is no Authenticode
    /// signature is passed over.
    pub fn parse_content_info<'a>(arena: &'a Vec<ContentInfo>, i: usize, pe: &[u8]) -> (r: Result<
        Vec<AuthenticodeSignature<'a>>,
        ParseError,
    >)
        requires
            i < arena@.len(),
        ensures
            match r {
                Ok(list) => signatures_at(arena@, i as int, pe@) == Ok::<
                    Seq<SignatureModel>,
                    ParseFailure,
                >(signature_models(list@)) && anchored(list@, arena@),
                Err(e) => signatures_at(arena@, i as int, pe@) == Err::<
                    Seq<SignatureModel>,
                    ParseFailure,
                >(e@),
            },
        decreases arena@.len() - i,
    {
        let parts = match check_signed_data(&arena[i]) {
            Ok(parts) => parts,
            Err(e) => {
                return Err(e);
            },
        };
        let ghost unsigned = unsigned_attributes(arena@[i as int]);
        let mut certificates: Vec<&'a Certificate> = Vec::new();
        match &parts.signed_data.certificates {
            Some(certs) => {
                let mut c: usize = 0;
                while c < certs.len()
                    invariant
                        c <= certs@.len(),
                        certificates_of(certificates@) == certs@.take(c as int),
                    decreases certs@.len() - c,
                {
                    let ghost held = certificates@;
                    certificates.push(&certs[c]);
                    assert(certificates@ == held.push(&certs@[c as int]));
                    assert(certificates_of(certificates@) =~= certificates_of(held).push(
                        certs@[c as int],
                    ));
                    assert(certs@.take(c + 1) =~= certs@.take(c as int).push(certs@[c as int]));
                    c += 1;
                }
                assert(certs@.take(certs@.len() as int) =~= certs@);
            },
            None => {
                assert(certificates_of(certificates@) =~= Seq::<Certificate>::empty());
            },
        }
        let mut nested: Vec<AuthenticodeSignature<'a>> = Vec::new();
        let countersignatures = match &parts.signer_info.unsigned_attrs {
            Some(attrs) => {
                let found = collect_countersignatures(attrs, &mut certificates);
                let mut k: usize = 0;
                assert(signature_models(nested@) =~= nested_signatures(
                    arena@,
                    i as int,
                    attrs@,
                    0,
                    pe@,
                ));
                while k < attrs.len()
                    invariant
                        k <= attrs@.len(),
                        i < arena@.len(),
                        signature_models(nested@) == nested_signatures(
                            arena@,
                            i as int,
                            attrs@,
                            k as int,
                            pe@,
                        ),
                        anchored(nested@, arena@),
                    decreases attrs@.len() - k,
                {
                    let attr = &attrs[k];
                    // An Authenticode signature can hold nested signatures
                    // in an unsigned attribute.
                    if string_equal(attr.oid.as_str(), SPC_MS_NESTED_SIGNATURE) && attr.values.len()
                        > 0 {
                        match attr.values[0].nested {
                            Some(j) => {
                                if i < j && j < arena.len() {
                                    match Self::parse_content_info(arena, j, pe) {
                                        Ok(list) => {
                                            let mut list = list;
                                            let ghost before = nested@;
                                            let ghost more = list@;
                                            nested.append(&mut list);
                                            assert(nested@ == before + more);
                                            assert(signature_models(nested@) =~= signature_models(
                                                before,
                                            ) + signature_models(more));
                                        },
                                        Err(_) => {},
                                    }
                                }
                            },
                            None => {},
                        }
                    }
                    k += 1;
                }
                found
            },
            None => {
                assert(signature_models(nested@) =~= nested_signatures(
                    arena@,
                    i as int,
                    unsigned,
                    0,
                    pe@,
                ));
                Vec::new()
            },
        };
        let program_name = match find_attribute(parts.signed_attrs, SPC_SP_OPUS_INFO_OBJID) {
            Some(attr) => if attr.values.len() > 0 {
                match &attr.values[0].opus_info {
                    Some(info) => match &info.program_name {
                        Some(name) => Some(name),
                        None => None,
                    },
                    None => None,
                }
            } else {
                None
            },
            None => None,
        };
        let own = AuthenticodeSignature {
            index: i,
            signer_info_digest: bytes2hex(parts.signer_info_digest.as_slice()),
            indirect_data: parts.indirect_data,
            signer_info: parts.signer_info,
            certificates,
            countersignatures,
            program_name,
            file_digest: crate::modules::pe::digests::file_digest(parts.file_algorithm, pe),
        };
        proof {
            assert(own@.countersignatures == countersigns_of(unsigned, unsigned.len() as int));
            assert(own@.program_name == named_program(parts.signed_attrs@));
            assert(own@ == own_signature(arena@, i as int, pe@));
        }
        let mut signatures: Vec<AuthenticodeSignature<'a>> = Vec::new();
        signatures.push(own);
        let ghost rest = nested@;
        signatures.append(&mut nested);
        proof {
            assert(signatures@ == seq![own] + rest);
            assert(signature_models(signatures@) =~= seq![own@] + signature_models(rest));
        }
        Ok(signatures)
    }
}

/// The chain of the signer that `sid` names, as positions among `certs`:
/// empty where the signer is not named by issuer and serial number.
pub open spec fn chain_of_signer(certs: Seq<&Certificate>, sid: SignerIdentifier) -> Seq<int> {
    match sid {
        SignerIdentifier::IssuerAndSerialNumber(signer) => chain_of(certs, signer.serial_number@),
        SignerIdentifier::SubjectKeyIdentifier(_) => Seq::empty(),
    }
}

impl<'a> AuthenticodeSignature<'a> {
    /// Get the Authenticode digest stored in the signature.
    pub fn digest(&self) -> (text: String)
        ensures
            text@ == hex_lower(self.indirect_data.message_digest.digest@),
    {
        bytes2hex(self.indirect_data.message_digest.digest.as_slice())
    }

    /// Get the Authenticode digest, as computed from the file.
    pub fn file_digest(&self) -> (text: String)
        ensures
            text@ == self.file_digest@,
    {
        self.file_digest.clone()
    }

    /// Get the name of the digest algorithm, where it is one that is known.
    pub fn digest_alg(&self) -> (name: Option<String>)
        ensures
            match name {
                Some(n) => crate::modules::pe::names::algorithm_name(
                    self.indirect_data.message_digest.digest_algorithm@,
                ) == Some(n@),
                None => crate::modules::pe::names::algorithm_name(
                    self.indirect_data.message_digest.digest_algorithm@,
                ) is None,
            },
    {
        match crate::modules::pe::names::oid_to_algorithm_name(
            self.indirect_data.message_digest.digest_algorithm.as_str(),
        ) {
            Some(name) => Some(String::from_str(name)),
            None => None,
        }
    }

    /// Get the information on the signer. There is exactly one.
    pub fn signer_info(&self) -> (info: &'a SignerInfo)
        ensures
            info == self.signer_info,
    {
        self.signer_info
    }

    /// Get the name of the digest algorithm of the signer, where it is one
    /// that is known.
    pub fn signer_info_digest_alg(&self) -> (name: Option<String>)
        ensures
            match name {
                Some(n) => crate::modules::pe::names::algorithm_name(self.signer_info.digest_alg@)
                    == Some(n@),
                None => crate::modules::pe::names::algorithm_name(self.signer_info.digest_alg@)
                    is None,
            },
    {
        match crate::modules::pe::names::oid_to_algorithm_name(
            self.signer_info.digest_alg.as_str(),
        ) {
            Some(name) => Some(String::from_str(name)),
            None => None,
        }
    }

    /// Get the digest that the signer signed, in hexadecimal.
    pub fn signer_info_digest(&self) -> (text: String)
        ensures
            text@ == self.signer_info_digest@,
    {
        self.signer_info_digest.clone()
    }

    /// The certificates of the signature: those of the signed data, then
    /// those of the timestamp tokens.
    pub fn certificates(&self) -> (certs: &Vec<&'a Certificate>)
        ensures
            *certs == self.certificates,
    {
        &self.certificates
    }

    /// The countersignatures of the signature.
    pub fn countersignatures(&self) -> (list: &Vec<AuthenticodeCountersign<'a>>)
        ensures
            *list == self.countersignatures,
    {
        &self.countersignatures
    }

    /// The chain of certificates of the signer.
    pub fn chain(&self) -> (chain: Vec<&'a Certificate>)
        ensures
            chain@ == picked(
                self.certificates@,
                chain_of_signer(self.certificates@, self.signer_info.sid),
            ),
    {
        self.build_chain(&self.signer_info.sid)
    }

    /// Returns the chain of the certificate that `sid` names: that
    /// certificate first, and the highest certificate found in the
    /// signature last.
    pub fn build_chain(&self, sid: &SignerIdentifier) -> (chain: Vec<&'a Certificate>)
        ensures
            chain@ == picked(self.certificates@, chain_of_signer(self.certificates@, *sid)),
    {
        match sid {
            SignerIdentifier::IssuerAndSerialNumber(signer) => build_chain(
                &self.certificates,
                signer.serial_number.as_slice(),
            ),
            SignerIdentifier::SubjectKeyIdentifier(_) => {
                let chain: Vec<&'a Certificate> = Vec::new();
                assert(chain@ =~= picked(
                    self.certificates@,
                    chain_of_signer(self.certificates@, *sid),
                ));
                chain
            },
        }
    }
}

} // verus!
