//! What the `pe` module reports of the signatures of a file: flat records
//! with text in place of encoded values.

use crate::modules::pe::authenticode::{
    chain_of_signer, picked, printed_name, AuthenticodeCountersign, AuthenticodeSignature,
    Certificate as X509Certificate, format_name,
};
use crate::modules::pe::digests::{format_serial_number, hex_lower, serial_text, sha1, thumbprint};
use crate::modules::pe::names::{algorithm_name, oid_to_algorithm_name};
use vstd::prelude::*;

verus! {

/// A certificate, as reported.
#[derive(Debug)]
pub struct Certificate {
    /// The version, counted from 1.
    pub version: i64,
    pub issuer: String,
    pub subject: String,
    pub serial: String,
    pub algorithm_oid: String,
    /// The name of the signature algorithm, where it is one that is known.
    pub algorithm: Option<String>,
    /// The SHA-1 digest of the encoded certificate, in hexadecimal.
    pub thumbprint: String,
    pub not_before: Option<i64>,
    pub not_after: Option<i64>,
}

/// A countersignature, as reported.
#[derive(Debug)]
pub struct CounterSignature {
    pub digest: Option<String>,
    pub digest_alg: Option<String>,
    pub sign_time: Option<i64>,
    pub chain: Vec<Certificate>,
}

/// The signer of a signature, as reported.
#[derive(Debug)]
pub struct SignerInfo {
    pub digest_alg: Option<String>,
    pub digest: String,
    pub program_name: Option<String>,
    pub chain: Vec<Certificate>,
}

/// A signature, as reported. The fields of the first certificate of the
/// signer's chain are repeated in the signature itself.
#[derive(Debug)]
pub struct Signature {
    pub digest: String,
    pub digest_alg: Option<String>,
    pub file_digest: String,
    pub certificates: Vec<Certificate>,
    pub countersignatures: Vec<CounterSignature>,
    pub number_of_certificates: i64,
    pub number_of_countersignatures: i64,
    pub signer_info: SignerInfo,
    pub version: Option<i64>,
    pub thumbprint: Option<String>,
    pub issuer: Option<String>,
    pub subject: Option<String>,
    pub serial: Option<String>,
    pub not_after: Option<i64>,
    pub not_before: Option<i64>,
    pub algorithm: Option<String>,
    pub algorithm_oid: Option<String>,
}

/// The text of an optional string.
pub open spec fn text_of(s: Option<String>) -> Option<Seq<char>> {
    match s {
        Some(s) => Some(s@),
        None => None,
    }
}

/// A time in seconds as a signed number, where it fits.
pub open spec fn seconds(t: u64) -> Option<i64> {
    if t <= i64::MAX {
        Some(t as i64)
    } else {
        None
    }
}

/// The record reports the certificate.
pub open spec fn reports_certificate(record: Certificate, cert: X509Certificate) -> bool {
    &&& record.version == cert.version + 1
    &&& record.issuer@ == printed_name(cert.issuer.rdns@, cert.issuer.rdns@.len() as int)
    &&& record.subject@ == printed_name(cert.subject.rdns@, cert.subject.rdns@.len() as int)
    &&& record.serial@ == serial_text(cert.serial_number@)
    &&& record.algorithm_oid@ == cert.signature_algorithm@
    &&& text_of(record.algorithm) == algorithm_name(cert.signature_algorithm@)
    &&& record.thumbprint@ == hex_lower(sha1(cert.der@))
    &&& record.not_before == seconds(cert.not_before)
    &&& record.not_after == seconds(cert.not_after)
}

/// The records report the certificates, one for one.
pub open spec fn report_certificates(records: Seq<Certificate>, certs: Seq<&X509Certificate>) -> bool {
    &&& records.len() == certs.len()
    &&& forall|i: int|
        0 <= i < records.len() ==> reports_certificate(#[trigger] records[i], *certs[i])
}

/// The name of an algorithm as an owned string.
fn algorithm_of(oid: &str) -> (name: Option<String>)
    ensures
        text_of(name) == algorithm_name(oid@),
{
    match oid_to_algorithm_name(oid) {
        Some(name) => Some(String::from_str(name)),
        None => None,
    }
}

/// A time in seconds as a signed number, where it fits.
fn to_seconds(t: u64) -> (r: Option<i64>)
    ensures
        r == seconds(t),
{
    if t <= i64::MAX as u64 {
        Some(t as i64)
    } else {
        None
    }
}

impl Certificate {
    /// Reports a certificate.
    pub fn from(value: &X509Certificate) -> (cert: Certificate)
        ensures
            reports_certificate(cert, *value),
    {
        Certificate {
            // Versions are counted from 0: add 1 for the actual version.
            version: value.version as i64 + 1,
            issuer: format_name(&value.issuer),
            subject: format_name(&value.subject),
            serial: format_serial_number(value.serial_number.as_slice()),
            algorithm_oid: value.signature_algorithm.clone(),
            algorithm: algorithm_of(value.signature_algorithm.as_str()),
            // The thumbprint is the SHA-1 of the encoded certificate.
            thumbprint: thumbprint(value.der.as_slice()),
            not_before: to_seconds(value.not_before),
            not_after: to_seconds(value.not_after),
        }
    }

    /// Reports the certificates of a list, in their order.
    pub fn from_all(certs: &Vec<&X509Certificate>) -> (records: Vec<Certificate>)
        ensures
            report_certificates(records@, certs@),
    {
        let mut records: Vec<Certificate> = Vec::new();
        let mut i: usize = 0;
        while i < certs.len()
            invariant
                i <= certs@.len(),
                records@.len() == i,
                forall|j: int| 0 <= j < i ==> reports_certificate(#[trigger] records@[j], *certs@[j]),
            decreases certs@.len() - i,
        {
            records.push(Certificate::from(certs[i]));
            i += 1;
        }
        records
    }

    /// A copy of the record.
    pub fn duplicate(&self) -> (copy: Certificate)
        ensures
            copy.version == self.version,
            copy.issuer@ == self.issuer@,
            copy.subject@ == self.subject@,
            copy.serial@ == self.serial@,
            copy.algorithm_oid@ == self.algorithm_oid@,
            text_of(copy.algorithm) == text_of(self.algorithm),
            copy.thumbprint@ == self.thumbprint@,
            copy.not_before == self.not_before,
            copy.not_after == self.not_after,
    {
        Certificate {
            version: self.version,
            issuer: self.issuer.clone(),
            subject: self.subject.clone(),
            serial: self.serial.clone(),
            algorithm_oid: self.algorithm_oid.clone(),
            algorithm: match &self.algorithm {
                Some(a) => Some(a.clone()),
                None => None,
            },
            thumbprint: self.thumbprint.clone(),
            not_before: self.not_before,
            not_after: self.not_after,
        }
    }
}

/// The record reports the countersignature, with the chain of the one who
/// countersigned among the certificates `certs`.
pub open spec fn reports_countersignature(
    record: CounterSignature,
    cs: AuthenticodeCountersign,
    certs: Seq<&X509Certificate>,
) -> bool {
    &&& text_of(record.digest) == text_of(cs.digest)
    &&& text_of(record.digest_alg) == cs@.digest_alg
    &&& record.sign_time == match cs.signing_time {
        Some(t) => Some(t as i64),
        None => None,
    }
    &&& report_certificates(record.chain@, picked(certs, chain_of_signer(certs, *cs.signer)))
}

impl CounterSignature {
    /// Reports a countersignature of the signature `signature`.
    pub fn from(value: &AuthenticodeCountersign, signature: &AuthenticodeSignature) -> (cs:
        CounterSignature)
        ensures
            reports_countersignature(cs, *value, signature.certificates@),
    {
        let chain = signature.build_chain(value.signer);
        CounterSignature {
            digest: match &value.digest {
                Some(d) => Some(d.clone()),
                None => None,
            },
            digest_alg: match value.digest_alg {
                Some(name) => Some(String::from_str(name)),
                None => None,
            },
            sign_time: match value.signing_time {
                Some(t) => Some(#[verifier::truncate] (t as i64)),
                None => None,
            },
            chain: Certificate::from_all(&chain),
        }
    }
}

/// The record reports the signature.
pub open spec fn reports_signature(record: Signature, sig: AuthenticodeSignature) -> bool {
    let certs = sig.certificates@;
    let chain = picked(certs, chain_of_signer(certs, sig.signer_info.sid));
    &&& record.digest@ == hex_lower(sig.indirect_data.message_digest.digest@)
    &&& text_of(record.digest_alg) == algorithm_name(
        sig.indirect_data.message_digest.digest_algorithm@,
    )
    &&& record.file_digest@ == sig.file_digest@
    &&& report_certificates(record.certificates@, certs)
    &&& record.countersignatures@.len() == sig.countersignatures@.len()
    &&& forall|i: int|
        0 <= i < record.countersignatures@.len() ==> reports_countersignature(
            #[trigger] record.countersignatures@[i],
            sig.countersignatures@[i],
            certs,
        )
    &&& record.number_of_certificates == certs.len() as i64
    &&& record.number_of_countersignatures == sig.countersignatures@.len() as i64
    &&& text_of(record.signer_info.digest_alg) == algorithm_name(sig.signer_info.digest_alg@)
    &&& record.signer_info.digest@ == sig.signer_info_digest@
    &&& text_of(record.signer_info.program_name) == match sig.program_name {
        Some(name) => Some(name.text()),
        None => None,
    }
    &&& report_certificates(record.signer_info.chain@, chain)
    &&& if chain.len() > 0 {
        let first = record.signer_info.chain@[0];
        &&& record.version == Some(first.version)
        &&& text_of(record.thumbprint) == Some(first.thumbprint@)
        &&& text_of(record.issuer) == Some(first.issuer@)
        &&& text_of(record.subject) == Some(first.subject@)
        &&& text_of(record.serial) == Some(first.serial@)
        &&& record.not_after == first.not_after
        &&& record.not_before == first.not_before
        &&& text_of(record.algorithm) == text_of(first.algorithm)
        &&& text_of(record.algorithm_oid) == Some(first.algorithm_oid@)
    } else {
        &&& record.version is None
        &&& record.thumbprint is None
        &&& record.issuer is None
        &&& record.subject is None
        &&& record.serial is None
        &&& record.not_after is None
        &&& record.not_before is None
        &&& record.algorithm is None
        &&& record.algorithm_oid is None
    }
}

impl Signature {
    /// Reports a signature.
    pub fn from(value: &AuthenticodeSignature) -> (sig: Signature)
        ensures
            reports_signature(sig, *value),
    {
        let certificates = Certificate::from_all(value.certificates());
        let mut countersignatures: Vec<CounterSignature> = Vec::new();
        let list = value.countersignatures();
        let mut i: usize = 0;
        while i < list.len()
            invariant
                i <= list@.len(),
                countersignatures@.len() == i,
                forall|j: int|
                    0 <= j < i ==> reports_countersignature(
                        #[trigger] countersignatures@[j],
                        list@[j],
                        value.certificates@,
                    ),
            decreases list@.len() - i,
        {
            countersignatures.push(CounterSignature::from(&list[i], value));
            i += 1;
        }
        let chain = Certificate::from_all(&value.chain());
        let first = if chain.len() > 0 {
            Some(chain[0].duplicate())
        } else {
            None
        };
        let signer_info = SignerInfo {
            digest_alg: value.signer_info_digest_alg(),
            digest: value.signer_info_digest(),
            program_name: match value.program_name {
                Some(name) => Some(name.to_text()),
                None => None,
            },
            chain,
        };
        let number_of_certificates = #[verifier::truncate] (certificates.len() as i64);
        let number_of_countersignatures = #[verifier::truncate] (countersignatures.len() as i64);
        // Some fields of the first certificate of the chain are repeated
        // in the signature, where they were before signers had chains.
        match first {
            Some(cert) => Signature {
                digest: value.digest(),
                digest_alg: value.digest_alg(),
                file_digest: value.file_digest(),
                certificates,
                countersignatures,
                number_of_certificates,
                number_of_countersignatures,
                signer_info,
                version: Some(cert.version),
                thumbprint: Some(cert.thumbprint),
                issuer: Some(cert.issuer),
                subject: Some(cert.subject),
                serial: Some(cert.serial),
                not_after: cert.not_after,
                not_before: cert.not_before,
                algorithm: cert.algorithm,
                algorithm_oid: Some(cert.algorithm_oid),
            },
            None => Signature {
                digest: value.digest(),
                digest_alg: value.digest_alg(),
                file_digest: value.file_digest(),
                certificates,
                countersignatures,
                number_of_certificates,
                number_of_countersignatures,
                signer_info,
                version: None,
                thumbprint: None,
                issuer: None,
                subject: None,
                serial: None,
                not_after: None,
                not_before: None,
                algorithm: None,
                algorithm_oid: None,
            },
        }
    }
}

} // verus!
