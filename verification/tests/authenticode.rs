use yara_x::modules::pe::authenticode::{
    build_chain, check_signed_data, collect_countersignatures, find_attribute, format_atv,
    format_name, pkcs9_countersignature, Attribute, AttributeTypeAndValue, AttributeValue,
    AuthenticodeParser, Certificate, ContentInfo, CounterAttribute, CounterValue,
    Countersignature, Decoded, DigestInfo, IssuerAndSerialNumber, Name, ParseError,
    RelativeDistinguishedName, SignedData, SignerIdentifier, SignerInfo,
    SpcAttributeTypeAndOptionalValue, SpcIndirectDataContent, SpcLink, SpcSpOpusInfo, SpcString,
    Tag, TimestampToken, TstInfo, ID_CONTENT_TYPE, ID_COUNTERSIGNATURE, ID_MESSAGE_DIGEST,
    ID_SIGNED_DATA, ID_SIGNING_TIME, SPC_INDIRECT_DATA_OBJID, SPC_MS_COUNTERSIGN,
    SPC_MS_NESTED_SIGNATURE, SPC_SP_OPUS_INFO_OBJID,
};
use yara_x::modules::pe::digests::{
    digest_text, file_digest, format_serial_number, thumbprint, FileDigestAlgorithm,
};
use yara_x::modules::pe::names::{
    is_well_written, oid_to_algorithm_name, shortest_name_by_oid, ID_MD_5, ID_SHA_1, ID_SHA_256,
    SHA_1_WITH_RSA_ENCRYPTION, SHA_256_WITH_RSA_ENCRYPTION,
};
use yara_x::modules::pe::records::{Certificate as CertificateRecord, CounterSignature, Signature};

#[test]
fn digests_of_known_data() {
    assert_eq!(thumbprint(b"abc"), "a9993e364706816aba3e25717850c26c9cd0d89d");
    assert_eq!(thumbprint(b""), "da39a3ee5e6b4b0d3255bfef95601890afd80709");
    assert_eq!(
        file_digest(FileDigestAlgorithm::Sha1, b"abc"),
        "a9993e364706816aba3e25717850c26c9cd0d89d"
    );
    assert_eq!(
        file_digest(FileDigestAlgorithm::Sha256, b"abc"),
        "ba7816bf8f01cfea414140de5dae2223b00361a396177a9cb410ff61f20015ad"
    );
    assert_eq!(
        file_digest(FileDigestAlgorithm::Sha256, b""),
        "e3b0c44298fc1c149afbf4c8996fb92427ae41e4649b934ca495991b7852b855"
    );
    for data in [&b""[..], b"x", &[0u8; 1000]] {
        assert_eq!(thumbprint(data).len(), 40);
        assert_eq!(file_digest(FileDigestAlgorithm::Sha1, data).len(), 40);
        assert_eq!(file_digest(FileDigestAlgorithm::Sha256, data).len(), 64);
    }
}

#[test]
fn hexadecimal_text() {
    assert_eq!(digest_text(&[]), "");
    assert_eq!(digest_text(&[0x00, 0x0f, 0xa0, 0xff, 0x9a]), "000fa0ff9a");
    assert_eq!(format_serial_number(&[]), "");
    assert_eq!(format_serial_number(&[0x0a]), "0a");
    assert_eq!(format_serial_number(&[0x01, 0xab, 0x00, 0xff]), "01:ab:00:ff");
}

#[test]
fn algorithm_names() {
    assert_eq!(oid_to_algorithm_name(ID_SHA_1), Some("sha1"));
    assert_eq!(oid_to_algorithm_name("1.3.14.3.2.26"), Some("sha1"));
    assert_eq!(oid_to_algorithm_name(ID_SHA_256), Some("sha256"));
    assert_eq!(oid_to_algorithm_name(ID_MD_5), Some("md5"));
    assert_eq!(oid_to_algorithm_name(SHA_1_WITH_RSA_ENCRYPTION), Some("sha1WithRSAEncryption"));
    assert_eq!(oid_to_algorithm_name(SHA_256_WITH_RSA_ENCRYPTION), Some("sha256WithRSAEncryption"));
    assert_eq!(oid_to_algorithm_name("1.2.840.113549.1.1.12"), None);
    assert_eq!(oid_to_algorithm_name(""), None);
}

#[test]
fn short_names_of_object_identifiers() {
    assert_eq!(shortest_name_by_oid("2.5.4.3").as_deref(), Some("cn"));
    assert_eq!(shortest_name_by_oid("2.5.4.6").as_deref(), Some("c"));
    assert_eq!(shortest_name_by_oid("2.5.4.10").as_deref(), Some("o"));
    assert_eq!(shortest_name_by_oid("2.5.4.11").as_deref(), Some("ou"));
    assert_eq!(shortest_name_by_oid("2.5.4.8").as_deref(), Some("st"));
    // The database spells this one with a capital letter first.
    assert_eq!(shortest_name_by_oid("2.5.4.7").as_deref(), Some("L"));
    assert_eq!(shortest_name_by_oid("1.3.6.1.4.1.311.2.1.4"), None);
    assert_eq!(shortest_name_by_oid("not an oid"), None);
    assert_eq!(shortest_name_by_oid(""), None);
    // A number that 32 bits do not hold is no part of an identifier.
    assert_eq!(shortest_name_by_oid("1.2.99999999999"), None);
    assert_eq!(shortest_name_by_oid("2.5.4.4294967296"), None);
    assert_eq!(shortest_name_by_oid("2.5.4.4294967295"), None);
    assert_eq!(shortest_name_by_oid("2.5.4.00000000003").as_deref(), Some("cn"));
    assert_eq!(shortest_name_by_oid("2.5.4."), None);
    assert_eq!(shortest_name_by_oid("2.5.4.3 "), None);
    assert_eq!(shortest_name_by_oid(".2.5.4.3"), None);
    assert_eq!(shortest_name_by_oid(&"1".repeat(100_000)), None);
    assert_eq!(shortest_name_by_oid(&"1.".repeat(300)), None);
    assert!(is_well_written("2.5.4.3"));
    assert!(is_well_written(""));
    assert!(is_well_written("..."));
    assert!(is_well_written("4294967295.0"));
    assert!(!is_well_written("4294967296.0"));
    assert!(!is_well_written("2.5.4.x"));
    assert!(!is_well_written("2.5.\u{e9}"));
    assert!(is_well_written(&"1.".repeat(256)));
    assert!(!is_well_written(&"1.".repeat(257)));
}

fn atv(oid: &str, tag: Tag, text: Option<&str>, der: &[u8]) -> AttributeTypeAndValue {
    AttributeTypeAndValue {
        oid: oid.to_string(),
        tag,
        text: text.map(|t| t.to_string()),
        der: der.to_vec(),
    }
}

fn name(parts: &[(&str, &str)]) -> Name {
    Name {
        rdns: parts
            .iter()
            .map(|(oid, text)| RelativeDistinguishedName {
                atvs: vec![atv(oid, Tag::PrintableString, Some(text), text.as_bytes())],
            })
            .collect(),
    }
}

#[test]
fn names_in_the_form_of_openssl() {
    let n = name(&[
        ("2.5.4.6", "ZA"),
        ("2.5.4.8", "Western Cape"),
        ("2.5.4.7", "Durbanville"),
        ("2.5.4.10", "Thawte"),
        ("2.5.4.11", "Thawte Certification"),
        ("2.5.4.3", "Thawte Timestamping CA"),
    ]);
    assert_eq!(
        format_name(&n),
        "/C=ZA/ST=Western Cape/L=Durbanville/O=Thawte/OU=Thawte Certification/CN=Thawte Timestamping CA"
    );
    assert_eq!(format_name(&Name { rdns: vec![] }), "");
    assert_eq!(format_name(&Name { rdns: vec![RelativeDistinguishedName { atvs: vec![] }] }), "/");
}

#[test]
fn parts_of_a_name_without_name_or_text() {
    // An identifier that the database does not hold.
    let unknown = atv("1.2.3.4", Tag::Utf8String, Some("x"), &[0x0c, 0x01, 0x78]);
    assert_eq!(format_atv(&unknown), "1.2.3.4=#0c0178");
    // A value that is no string.
    let other = atv("2.5.4.3", Tag::Other, Some("ignored"), &[0x02, 0x01, 0x05]);
    assert_eq!(format_atv(&other), "2.5.4.3=#020105");
    // A string that could not be read.
    let unreadable = atv("2.5.4.3", Tag::Ia5String, None, &[0x16, 0x01, 0xff]);
    assert_eq!(format_atv(&unreadable), "2.5.4.3=#1601ff");
    let teletex = atv("2.5.4.10", Tag::TeletexString, Some("Acme"), &[]);
    assert_eq!(format_atv(&teletex), "O=Acme");
    // Two parts in one set follow each other directly.
    let two = Name {
        rdns: vec![RelativeDistinguishedName {
            atvs: vec![
                atv("2.5.4.6", Tag::PrintableString, Some("US"), b"US"),
                atv("2.5.4.3", Tag::Utf8String, Some("n"), b"n"),
            ],
        }],
    };
    assert_eq!(format_name(&two), "/C=USCN=n");
}

fn cert(serial: &[u8], subject: &str, issuer: &str) -> Certificate {
    Certificate {
        version: 2,
        serial_number: serial.to_vec(),
        issuer: name(&[("2.5.4.3", issuer)]),
        subject: name(&[("2.5.4.3", subject)]),
        signature_algorithm: SHA_256_WITH_RSA_ENCRYPTION.to_string(),
        not_before: 1_600_000_000,
        not_after: 1_700_000_000,
        der: subject.as_bytes().to_vec(),
    }
}

fn subjects(chain: &[&Certificate]) -> Vec<String> {
    chain.iter().map(|c| format_name(&c.subject)).collect()
}

#[test]
fn chain_of_certificates() {
    let leaf = cert(&[1], "leaf", "middle");
    let middle = cert(&[2], "middle", "root");
    let root = cert(&[3], "root", "root");
    let stray = cert(&[4], "stray", "nobody");
    let certs = vec![&root, &stray, &leaf, &middle];
    assert_eq!(subjects(&build_chain(&certs, &[1])), vec!["/CN=leaf", "/CN=middle", "/CN=root"]);
    assert_eq!(subjects(&build_chain(&certs, &[2])), vec!["/CN=middle", "/CN=root"]);
    assert_eq!(subjects(&build_chain(&certs, &[3])), vec!["/CN=root"]);
    // The issuer is not among the certificates.
    assert_eq!(subjects(&build_chain(&certs, &[4])), vec!["/CN=stray"]);
    // No certificate has the serial number.
    assert!(build_chain(&certs, &[9]).is_empty());
    assert!(build_chain(&vec![], &[1]).is_empty());
}

#[test]
fn chain_ends_where_certificates_issue_each_other() {
    let a = cert(&[1], "a", "b");
    let b = cert(&[2], "b", "a");
    let certs = vec![&a, &b];
    assert_eq!(subjects(&build_chain(&certs, &[1])), vec!["/CN=a", "/CN=b"]);
    let c = cert(&[3], "c", "d");
    let d = cert(&[4], "d", "e");
    let e = cert(&[5], "e", "c");
    let certs = vec![&c, &d, &e];
    assert_eq!(subjects(&build_chain(&certs, &[4])), vec!["/CN=d", "/CN=e", "/CN=c"]);
}

#[test]
fn names_are_the_same_by_identifier_and_encoding() {
    let a = name(&[("2.5.4.6", "US"), ("2.5.4.3", "x")]);
    assert!(a.same_as(&name(&[("2.5.4.6", "US"), ("2.5.4.3", "x")])));
    assert!(!a.same_as(&name(&[("2.5.4.6", "US"), ("2.5.4.3", "y")])));
    assert!(!a.same_as(&name(&[("2.5.4.6", "US"), ("2.5.4.10", "x")])));
    assert!(!a.same_as(&name(&[("2.5.4.6", "US")])));
    assert!(!a.same_as(&name(&[("2.5.4.3", "x"), ("2.5.4.6", "US")])));
    assert!(Name { rdns: vec![] }.same_as(&Name { rdns: vec![] }));
}

fn value(content: &[u8]) -> AttributeValue {
    AttributeValue {
        content: content.to_vec(),
        octet_string: None,
        opus_info: None,
        nested: None,
        timestamp_token: None,
        countersignature: None,
    }
}

fn octets(bytes: &[u8]) -> AttributeValue {
    AttributeValue { octet_string: Some(bytes.to_vec()), ..value(bytes) }
}

fn attribute(oid: &str, values: Vec<AttributeValue>) -> Attribute {
    Attribute { oid: oid.to_string(), values }
}

fn sid(serial: &[u8]) -> SignerIdentifier {
    SignerIdentifier::IssuerAndSerialNumber(IssuerAndSerialNumber {
        issuer: name(&[("2.5.4.3", "middle")]),
        serial_number: serial.to_vec(),
    })
}

fn indirect_data() -> SpcIndirectDataContent {
    SpcIndirectDataContent {
        data: SpcAttributeTypeAndOptionalValue {
            value_type: "1.3.6.1.4.1.311.2.1.15".to_string(),
            value: vec![],
        },
        message_digest: DigestInfo { digest_algorithm: ID_SHA_256.to_string(), digest: vec![0xde, 0xad] },
    }
}

fn signer(digest_alg: &str) -> SignerInfo {
    SignerInfo {
        version: 1,
        sid: sid(&[1]),
        digest_alg: digest_alg.to_string(),
        signed_attrs: Some(vec![
            attribute(ID_CONTENT_TYPE, vec![value(&[])]),
            attribute(ID_MESSAGE_DIGEST, vec![octets(&[0xbe, 0xef])]),
        ]),
        unsigned_attrs: None,
    }
}

fn signed_data(digest_alg: &str) -> SignedData {
    SignedData {
        version: 1,
        digest_algorithms: vec![digest_alg.to_string()],
        econtent_type: SPC_INDIRECT_DATA_OBJID.to_string(),
        econtent: Some(Ok(indirect_data())),
        signer_infos: vec![signer(digest_alg)],
        certificates: Some(vec![
            cert(&[1], "leaf", "middle"),
            cert(&[2], "middle", "root"),
            cert(&[3], "root", "root"),
        ]),
    }
}

fn content(data: SignedData) -> ContentInfo {
    ContentInfo { content_type: ID_SIGNED_DATA.to_string(), content: Ok(data) }
}

fn parse_one(data: SignedData) -> Result<usize, ParseError> {
    let decoded = Decoded::Content(vec![content(data)]);
    AuthenticodeParser::parse(&decoded, b"file").map(|list| list.len())
}

#[test]
fn a_plain_signature() {
    let decoded = Decoded::Content(vec![content(signed_data(ID_SHA_256))]);
    let list = AuthenticodeParser::parse(&decoded, b"abc").unwrap();
    assert_eq!(list.len(), 1);
    let s = &list[0];
    assert_eq!(s.index, 0);
    assert_eq!(s.digest(), "dead");
    assert_eq!(s.digest_alg().as_deref(), Some("sha256"));
    assert_eq!(s.signer_info_digest(), "beef");
    assert_eq!(s.signer_info_digest_alg().as_deref(), Some("sha256"));
    assert_eq!(
        s.file_digest(),
        "ba7816bf8f01cfea414140de5dae2223b00361a396177a9cb410ff61f20015ad"
    );
    assert_eq!(s.signer_info().version, 1);
    assert_eq!(s.certificates().len(), 3);
    assert!(s.countersignatures().is_empty());
    assert!(s.program_name.is_none());
    assert_eq!(subjects(&s.chain()), vec!["/CN=leaf", "/CN=middle", "/CN=root"]);
}

#[test]
fn sha1_signatures_hash_the_file_with_sha1() {
    let decoded = Decoded::Content(vec![content(signed_data(ID_SHA_1))]);
    let list = AuthenticodeParser::parse(&decoded, b"abc").unwrap();
    assert_eq!(list[0].file_digest(), "a9993e364706816aba3e25717850c26c9cd0d89d");
    assert_eq!(list[0].signer_info_digest_alg().as_deref(), Some("sha1"));
}

#[test]
fn each_error_and_what_gives_it() {
    assert!(matches!(AuthenticodeParser::parse(&Decoded::Empty, b""), Err(ParseError::Empty)));
    assert!(matches!(
        AuthenticodeParser::parse(&Decoded::Content(vec![]), b""),
        Err(ParseError::Empty)
    ));
    match AuthenticodeParser::parse(&Decoded::Invalid("bad tag".to_string()), b"") {
        Err(ParseError::InvalidContentInfo(m)) => assert_eq!(m, "bad tag"),
        _ => panic!("unexpected result"),
    }
    let mut info = content(signed_data(ID_SHA_256));
    info.content_type = "1.2.840.113549.1.7.1".to_string();
    match AuthenticodeParser::parse(&Decoded::Content(vec![info]), b"") {
        Err(ParseError::InvalidContentType(oid)) => assert_eq!(oid, "1.2.840.113549.1.7.1"),
        _ => panic!("unexpected result"),
    }
    let info = ContentInfo {
        content_type: ID_SIGNED_DATA.to_string(),
        content: Err("truncated".to_string()),
    };
    match AuthenticodeParser::parse(&Decoded::Content(vec![info]), b"") {
        Err(ParseError::InvalidSignedData(m)) => assert_eq!(m, "truncated"),
        _ => panic!("unexpected result"),
    }

    let mut d = signed_data(ID_SHA_256);
    d.version = 3;
    assert!(matches!(parse_one(d), Err(ParseError::InvalidSignedDataVersion(3))));

    let mut d = signed_data(ID_SHA_256);
    d.digest_algorithms.push(ID_SHA_1.to_string());
    assert!(matches!(parse_one(d), Err(ParseError::InvalidNumDigestAlgorithms(2))));
    let mut d = signed_data(ID_SHA_256);
    d.digest_algorithms.clear();
    assert!(matches!(parse_one(d), Err(ParseError::InvalidNumDigestAlgorithms(0))));

    let mut d = signed_data(ID_SHA_256);
    d.signer_infos.push(signer(ID_SHA_256));
    assert!(matches!(parse_one(d), Err(ParseError::InvalidNumSignerInfo(2))));
    let mut d = signed_data(ID_SHA_256);
    d.signer_infos.clear();
    assert!(matches!(parse_one(d), Err(ParseError::InvalidNumSignerInfo(0))));

    let mut d = signed_data(ID_SHA_256);
    d.econtent_type = "1.2.3".to_string();
    match parse_one(d) {
        Err(ParseError::InvalidEncapsulatedContentType(oid)) => assert_eq!(oid, "1.2.3"),
        _ => panic!("unexpected result"),
    }

    let mut d = signed_data(ID_SHA_256);
    d.econtent = None;
    assert!(matches!(parse_one(d), Err(ParseError::EmptyEncapsulatedContent)));
    let mut d = signed_data(ID_SHA_256);
    d.econtent = Some(Err("no sequence".to_string()));
    match parse_one(d) {
        Err(ParseError::InvalidSpcIndirectDataContent(m)) => assert_eq!(m, "no sequence"),
        _ => panic!("unexpected result"),
    }

    let mut d = signed_data(ID_SHA_256);
    d.signer_infos[0].version = 0;
    assert!(matches!(parse_one(d), Err(ParseError::InvalidSignerInfoVersion(0))));

    let mut d = signed_data(ID_SHA_256);
    d.signer_infos[0].digest_alg = ID_SHA_1.to_string();
    assert!(matches!(parse_one(d), Err(ParseError::AlgorithmMismatch)));

    let mut d = signed_data(ID_SHA_256);
    d.signer_infos[0].signed_attrs = None;
    assert!(matches!(parse_one(d), Err(ParseError::EmptyAuthenticatedAttributes)));

    let mut d = signed_data(ID_SHA_256);
    d.signer_infos[0].signed_attrs = Some(vec![attribute(ID_MESSAGE_DIGEST, vec![octets(&[1])])]);
    assert!(matches!(parse_one(d), Err(ParseError::MissingContentTypeAuthenticatedAttribute)));

    for attrs in [
        vec![attribute(ID_CONTENT_TYPE, vec![])],
        vec![attribute(ID_CONTENT_TYPE, vec![]), attribute(ID_MESSAGE_DIGEST, vec![])],
        vec![attribute(ID_CONTENT_TYPE, vec![]), attribute(ID_MESSAGE_DIGEST, vec![value(&[1])])],
        // Only the first attribute of the kind counts.
        vec![
            attribute(ID_CONTENT_TYPE, vec![]),
            attribute(ID_MESSAGE_DIGEST, vec![value(&[1])]),
            attribute(ID_MESSAGE_DIGEST, vec![octets(&[1])]),
        ],
    ] {
        let mut d = signed_data(ID_SHA_256);
        d.signer_infos[0].signed_attrs = Some(attrs);
        assert!(matches!(parse_one(d), Err(ParseError::MissingMessageDigestAuthenticatedAttribute)));
    }

    match parse_one(signed_data(ID_MD_5)) {
        Err(ParseError::UnsupportedDigestAlgorithm(oid)) => assert_eq!(oid, ID_MD_5),
        _ => panic!("unexpected result"),
    }
}

#[test]
fn the_first_failing_check_gives_the_error() {
    let mut d = signed_data(ID_SHA_256);
    d.version = 2;
    d.signer_infos.clear();
    d.econtent = None;
    assert!(matches!(parse_one(d), Err(ParseError::InvalidSignedDataVersion(2))));
    let mut d = signed_data(ID_SHA_256);
    d.signer_infos.clear();
    d.econtent_type = "1.2".to_string();
    assert!(matches!(parse_one(d), Err(ParseError::InvalidNumSignerInfo(0))));
}

#[test]
fn certificates_may_be_absent() {
    let mut d = signed_data(ID_SHA_256);
    d.certificates = None;
    let decoded = Decoded::Content(vec![content(d)]);
    let list = AuthenticodeParser::parse(&decoded, b"").unwrap();
    assert!(list[0].certificates().is_empty());
    assert!(list[0].chain().is_empty());
}

fn nested_attr(at: Option<usize>) -> Attribute {
    attribute(SPC_MS_NESTED_SIGNATURE, vec![AttributeValue { nested: at, ..value(&[]) }])
}

#[test]
fn nested_signatures_follow_their_parent() {
    // 0 holds 1 and 3; 1 holds 2; 3 is no Authenticode signature and holds 4.
    let mut outer = signed_data(ID_SHA_256);
    outer.signer_infos[0].unsigned_attrs = Some(vec![
        nested_attr(Some(1)),
        attribute("1.2.3", vec![]),
        nested_attr(Some(3)),
        nested_attr(None),
        nested_attr(Some(0)),
        nested_attr(Some(99)),
        attribute(SPC_MS_NESTED_SIGNATURE, vec![]),
    ]);
    let mut first = signed_data(ID_SHA_1);
    first.signer_infos[0].unsigned_attrs = Some(vec![nested_attr(Some(2))]);
    let second = signed_data(ID_SHA_256);
    let mut broken = signed_data(ID_SHA_256);
    broken.version = 9;
    broken.signer_infos[0].unsigned_attrs = Some(vec![nested_attr(Some(4))]);
    let hidden = signed_data(ID_SHA_256);
    let mut nested_type = content(first);
    // The type of a nested content info is not looked at.
    nested_type.content_type = "1.2.3".to_string();
    let decoded = Decoded::Content(vec![
        content(outer),
        nested_type,
        content(second),
        content(broken),
        content(hidden),
    ]);
    let list = AuthenticodeParser::parse(&decoded, b"abc").unwrap();
    let indices: Vec<usize> = list.iter().map(|s| s.index).collect();
    assert_eq!(indices, vec![0, 1, 2]);
    assert_eq!(list[1].signer_info_digest_alg().as_deref(), Some("sha1"));
    assert_eq!(list[1].file_digest(), "a9993e364706816aba3e25717850c26c9cd0d89d");

    let arena = match &decoded {
        Decoded::Content(arena) => arena,
        _ => panic!(),
    };
    assert!(AuthenticodeParser::parse_content_info(arena, 3, b"").is_err());
    assert_eq!(AuthenticodeParser::parse_content_info(arena, 4, b"").unwrap().len(), 1);
    assert_eq!(AuthenticodeParser::parse_content_info(arena, 1, b"").unwrap().len(), 2);
}

fn counter_value(content: &[u8], time: Option<u64>) -> CounterValue {
    CounterValue { content: content.to_vec(), utc_time: time }
}

fn countersignature(serial: &[u8]) -> Countersignature {
    Countersignature {
        sid: sid(serial),
        digest_alg: ID_SHA_1.to_string(),
        signed_attrs: Some(vec![
            CounterAttribute {
                oid: ID_MESSAGE_DIGEST.to_string(),
                values: vec![counter_value(&[0x01, 0x02], None)],
            },
            CounterAttribute {
                oid: ID_SIGNING_TIME.to_string(),
                values: vec![counter_value(&[], Some(1_234_567_890))],
            },
            CounterAttribute { oid: ID_MESSAGE_DIGEST.to_string(), values: vec![] },
        ]),
    }
}

#[test]
fn reading_a_countersignature() {
    let cs = countersignature(&[2]);
    let read = pkcs9_countersignature(&cs);
    assert_eq!(read.digest.as_deref(), Some("0102"));
    assert_eq!(read.digest_alg, Some("sha1"));
    assert_eq!(read.signing_time, Some(1_234_567_890));
    assert!(matches!(read.signer, SignerIdentifier::IssuerAndSerialNumber(_)));

    // The last attribute of a kind that has a value counts.
    let mut later = countersignature(&[2]);
    later.digest_alg = "1.2.3".to_string();
    later.signed_attrs.as_mut().unwrap().push(CounterAttribute {
        oid: ID_MESSAGE_DIGEST.to_string(),
        values: vec![counter_value(&[0xff], None), counter_value(&[0x00], None)],
    });
    later.signed_attrs.as_mut().unwrap().push(CounterAttribute {
        oid: ID_SIGNING_TIME.to_string(),
        values: vec![counter_value(&[], None)],
    });
    let read = pkcs9_countersignature(&later);
    assert_eq!(read.digest.as_deref(), Some("ff"));
    assert_eq!(read.digest_alg, None);
    assert_eq!(read.signing_time, None);

    let bare = Countersignature {
        sid: SignerIdentifier::SubjectKeyIdentifier(vec![7]),
        digest_alg: ID_SHA_256.to_string(),
        signed_attrs: None,
    };
    let read = pkcs9_countersignature(&bare);
    assert_eq!(read.digest, None);
    assert_eq!(read.signing_time, None);
    assert_eq!(read.digest_alg, Some("sha256"));
}

fn token(signer: Option<Countersignature>, tst: Option<TstInfo>, certs: Vec<Certificate>) -> AttributeValue {
    AttributeValue {
        timestamp_token: Some(TimestampToken { certificates: certs, signer, tst_info: tst }),
        ..value(&[])
    }
}

#[test]
fn countersignatures_and_the_certificates_of_tokens() {
    let attrs = vec![
        attribute(
            ID_COUNTERSIGNATURE,
            vec![
                AttributeValue { countersignature: Some(countersignature(&[2])), ..value(&[]) },
                value(&[]),
            ],
        ),
        attribute(
            SPC_MS_COUNTERSIGN,
            vec![
                token(
                    Some(countersignature(&[8])),
                    Some(TstInfo { hash_algorithm: ID_SHA_256.to_string(), hashed_message: vec![0xab] }),
                    vec![cert(&[8], "tsa", "tsa root"), cert(&[9], "tsa root", "tsa root")],
                ),
                // A token whose content cannot be read brings its
                // certificates and no countersignature.
                token(Some(countersignature(&[7])), None, vec![cert(&[7], "other", "other")]),
                token(None, Some(TstInfo { hash_algorithm: ID_SHA_1.to_string(), hashed_message: vec![] }), vec![]),
                value(&[]),
            ],
        ),
        attribute("1.2.3", vec![token(Some(countersignature(&[1])), None, vec![cert(&[1], "x", "x")])]),
    ];
    let own = cert(&[1], "leaf", "middle");
    let mut certificates: Vec<&Certificate> = vec![&own];
    let found = collect_countersignatures(&attrs, &mut certificates);
    assert_eq!(found.len(), 2);
    assert_eq!(found[0].digest.as_deref(), Some("0102"));
    assert_eq!(found[0].digest_alg, Some("sha1"));
    assert_eq!(found[1].digest.as_deref(), Some("ab"));
    assert_eq!(found[1].digest_alg, Some("sha256"));
    assert_eq!(found[1].signing_time, Some(1_234_567_890));
    assert_eq!(
        subjects(&certificates),
        vec!["/CN=leaf", "/CN=tsa", "/CN=tsa root", "/CN=other"]
    );
}

#[test]
fn program_name_and_records() {
    let mut d = signed_data(ID_SHA_256);
    d.signer_infos[0].signed_attrs.as_mut().unwrap().push(attribute(
        SPC_SP_OPUS_INFO_OBJID,
        vec![AttributeValue {
            opus_info: Some(SpcSpOpusInfo {
                program_name: Some(SpcString::Unicode("Setup".to_string())),
                more_info: Some(SpcLink::Url("https://example.com".to_string())),
            }),
            ..value(&[])
        }],
    ));
    d.signer_infos[0].unsigned_attrs = Some(vec![attribute(
        SPC_MS_COUNTERSIGN,
        vec![token(
            Some(countersignature(&[8])),
            Some(TstInfo { hash_algorithm: ID_SHA_256.to_string(), hashed_message: vec![0xab] }),
            vec![cert(&[8], "tsa", "tsa root"), cert(&[9], "tsa root", "tsa root")],
        )],
    )]);
    let decoded = Decoded::Content(vec![content(d)]);
    let list = AuthenticodeParser::parse(&decoded, b"abc").unwrap();
    let s = &list[0];
    assert_eq!(s.program_name.map(|n| n.to_text()).as_deref(), Some("Setup"));
    assert_eq!(SpcString::Ascii("a".to_string()).to_text(), "a");

    let record = Signature::from(s);
    assert_eq!(record.digest, "dead");
    assert_eq!(record.digest_alg.as_deref(), Some("sha256"));
    assert_eq!(
        record.file_digest,
        "ba7816bf8f01cfea414140de5dae2223b00361a396177a9cb410ff61f20015ad"
    );
    assert_eq!(record.number_of_certificates, 5);
    assert_eq!(record.certificates.len(), 5);
    assert_eq!(record.number_of_countersignatures, 1);
    assert_eq!(record.countersignatures.len(), 1);
    assert_eq!(record.countersignatures[0].digest.as_deref(), Some("ab"));
    assert_eq!(record.countersignatures[0].digest_alg.as_deref(), Some("sha256"));
    assert_eq!(record.countersignatures[0].sign_time, Some(1_234_567_890));
    let tsa: Vec<&str> =
        record.countersignatures[0].chain.iter().map(|c| c.subject.as_str()).collect();
    assert_eq!(tsa, vec!["/CN=tsa", "/CN=tsa root"]);
    assert_eq!(record.signer_info.digest, "beef");
    assert_eq!(record.signer_info.digest_alg.as_deref(), Some("sha256"));
    assert_eq!(record.signer_info.program_name.as_deref(), Some("Setup"));
    assert_eq!(record.signer_info.chain.len(), 3);
    assert_eq!(record.subject.as_deref(), Some("/CN=leaf"));
    assert_eq!(record.issuer.as_deref(), Some("/CN=middle"));
    assert_eq!(record.serial.as_deref(), Some("01"));
    assert_eq!(record.version, Some(3));
    assert_eq!(record.not_before, Some(1_600_000_000));
    assert_eq!(record.not_after, Some(1_700_000_000));
    assert_eq!(record.algorithm.as_deref(), Some("sha256WithRSAEncryption"));
    assert_eq!(record.algorithm_oid.as_deref(), Some("1.2.840.113549.1.1.11"));
    // The thumbprint is the SHA-1 of the encoded certificate.
    assert_eq!(record.thumbprint, Some(thumbprint(b"leaf")));

    let cs = CounterSignature::from(&s.countersignatures()[0], s);
    assert_eq!(cs.chain.len(), 2);
}

#[test]
fn a_signature_without_a_chain_repeats_nothing() {
    let mut d = signed_data(ID_SHA_256);
    d.signer_infos[0].sid = SignerIdentifier::SubjectKeyIdentifier(vec![1]);
    let decoded = Decoded::Content(vec![content(d)]);
    let list = AuthenticodeParser::parse(&decoded, b"").unwrap();
    let record = Signature::from(&list[0]);
    assert!(record.signer_info.chain.is_empty());
    assert_eq!(record.version, None);
    assert_eq!(record.subject, None);
    assert_eq!(record.thumbprint, None);
    assert_eq!(record.number_of_certificates, 3);
}

#[test]
fn a_certificate_record() {
    let mut c = cert(&[0x0a, 0xff], "leaf", "middle");
    c.version = 0;
    c.not_after = u64::MAX;
    c.signature_algorithm = "1.2.840.10045.4.3.2".to_string();
    let record = CertificateRecord::from(&c);
    assert_eq!(record.version, 1);
    assert_eq!(record.serial, "0a:ff");
    assert_eq!(record.subject, "/CN=leaf");
    assert_eq!(record.issuer, "/CN=middle");
    assert_eq!(record.algorithm_oid, "1.2.840.10045.4.3.2");
    assert_eq!(record.algorithm, None);
    assert_eq!(record.not_before, Some(1_600_000_000));
    assert_eq!(record.not_after, None);
    assert_eq!(record.thumbprint, thumbprint(b"leaf"));
    let copy = record.duplicate();
    assert_eq!(copy.serial, record.serial);
    assert_eq!(copy.thumbprint, record.thumbprint);
}

#[test]
fn checking_and_finding() {
    let info = content(signed_data(ID_SHA_1));
    let parts = check_signed_data(&info).unwrap();
    assert_eq!(parts.signer_info_digest, &vec![0xbe, 0xef]);
    assert_eq!(parts.file_algorithm, FileDigestAlgorithm::Sha1);
    assert_eq!(parts.signed_attrs.len(), 2);
    assert_eq!(find_attribute(parts.signed_attrs, ID_MESSAGE_DIGEST).unwrap().values.len(), 1);
    assert!(find_attribute(parts.signed_attrs, ID_SIGNING_TIME).is_none());
}
