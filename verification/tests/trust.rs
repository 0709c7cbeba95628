use openprov::certificate::{CertificateIdentity, Extension};
use openprov::trust_classification::{
    assurance_value, build_chain_entries, chain_entry, classify_c2pa_assurance, classify_trust,
    extract_dn, has_document_signing_eku, identity_entry, intact_blocks, level_code,
    pem_to_der_chain, permits_document_signing, timestamp_trust, trust_checks,
    TrustClassification, EKU_DOCUMENT_SIGNING, TIMESTAMP_NONE, TIMESTAMP_TRUSTED,
    TIMESTAMP_UNKNOWN, TRUST_C2PA_INTERIM, TRUST_C2PA_LEVEL_1, TRUST_C2PA_LEVEL_2,
    TRUST_CAWG_INTERIM, TRUST_UNKNOWN,
};
use openprov::trust_policy::{
    chain_check, has_anchors, is_chain_trusted, CertificateTrustPolicy, ChainCheck,
};

// --- Building certificates ---

const UTF8_STRING: u8 = 0x0c;
const PRINTABLE_STRING: u8 = 0x13;
const BMP_STRING: u8 = 0x1e;
const UTC_TIME: u8 = 0x17;
const GENERALIZED_TIME: u8 = 0x18;

const CN: [u64; 4] = [2, 5, 4, 3];
const C: [u64; 4] = [2, 5, 4, 6];
const O: [u64; 4] = [2, 5, 4, 10];
const OU: [u64; 4] = [2, 5, 4, 11];

const LEVEL_EXTENSION: [u64; 9] = [1, 3, 6, 1, 4, 1, 62558, 3, 1];
const LEVEL_1: [u64; 9] = [1, 3, 6, 1, 4, 1, 62558, 3, 10];
const LEVEL_2: [u64; 9] = [1, 3, 6, 1, 4, 1, 62558, 3, 20];
const EXTENDED_KEY_USAGE: [u64; 4] = [2, 5, 29, 37];
const DOCUMENT_SIGNING: [u64; 9] = [1, 3, 6, 1, 5, 5, 7, 3, 36];
const EMAIL_PROTECTION: [u64; 9] = [1, 3, 6, 1, 5, 5, 7, 3, 4];

fn tlv(tag: u8, content: &[u8]) -> Vec<u8> {
    let mut out = vec![tag];
    let length = content.len();
    if length < 0x80 {
        out.push(length as u8);
    } else if length < 0x100 {
        out.push(0x81);
        out.push(length as u8);
    } else {
        out.push(0x82);
        out.push((length >> 8) as u8);
        out.push((length & 0xff) as u8);
    }
    out.extend_from_slice(content);
    out
}

fn sequence(parts: &[Vec<u8>]) -> Vec<u8> {
    tlv(0x30, &parts.concat())
}

fn oid(arcs: &[u64]) -> Vec<u8> {
    let mut content = vec![(arcs[0] * 40 + arcs[1]) as u8];
    for arc in &arcs[2..] {
        let mut septets = vec![(arc & 0x7f) as u8];
        let mut rest = arc >> 7;
        while rest > 0 {
            septets.push((rest & 0x7f) as u8 | 0x80);
            rest >>= 7;
        }
        septets.reverse();
        content.extend_from_slice(&septets);
    }
    tlv(0x06, &content)
}

fn attribute(kind: &[u64], tag: u8, value: &[u8]) -> Vec<u8> {
    tlv(0x31, &sequence(&[oid(kind), tlv(tag, value)]))
}

fn extension(kind: &[u64], value: &[u8]) -> Vec<u8> {
    sequence(&[oid(kind), tlv(0x04, value)])
}

fn certificate(subject: &[Vec<u8>], not_after: Vec<u8>, extensions: &[Vec<u8>]) -> Vec<u8> {
    let algorithm = sequence(&[oid(&[1, 2, 840, 113549, 1, 1, 11]), tlv(0x05, &[])]);
    let key = sequence(&[
        sequence(&[oid(&[1, 2, 840, 113549, 1, 1, 1]), tlv(0x05, &[])]),
        tlv(0x03, &[0, 1, 2, 3]),
    ]);
    let mut tbs = vec![
        tlv(0xa0, &tlv(0x02, &[2])),
        tlv(0x02, &[1]),
        algorithm.clone(),
        sequence(&[attribute(&CN, UTF8_STRING, b"Issuer")]),
        sequence(&[tlv(UTC_TIME, b"200101000000Z"), not_after]),
        sequence(subject),
        key,
    ];
    if !extensions.is_empty() {
        tbs.push(tlv(0xa3, &sequence(extensions)));
    }
    sequence(&[sequence(&tbs), algorithm, tlv(0x03, &[0, 9, 9, 9])])
}

fn named(name: &str, extensions: &[Vec<u8>]) -> Vec<u8> {
    certificate(
        &[attribute(&CN, UTF8_STRING, name.as_bytes())],
        tlv(UTC_TIME, b"300101000000Z"),
        extensions,
    )
}

fn level(arcs: &[u64]) -> Vec<u8> {
    extension(&LEVEL_EXTENSION, &oid(arcs))
}

fn key_usage(purposes: &[&[u64]]) -> Vec<u8> {
    let oids: Vec<Vec<u8>> = purposes.iter().map(|purpose| oid(purpose)).collect();
    extension(&EXTENDED_KEY_USAGE, &sequence(&oids))
}

fn base64(data: &[u8]) -> String {
    const ALPHABET: &[u8] = b"ABCDEFGHIJKLMNOPQRSTUVWXYZabcdefghijklmnopqrstuvwxyz0123456789+/";
    let mut out = String::new();
    for chunk in data.chunks(3) {
        let word = (chunk[0] as u32) << 16
            | (*chunk.get(1).unwrap_or(&0) as u32) << 8
            | *chunk.get(2).unwrap_or(&0) as u32;
        for i in 0..4 {
            if i <= chunk.len() {
                out.push(ALPHABET[(word >> (18 - 6 * i)) as usize & 0x3f] as char);
            } else {
                out.push('=');
            }
        }
    }
    out
}

fn pem(chain: &[Vec<u8>]) -> Vec<u8> {
    let mut out = String::new();
    for der in chain {
        out.push_str("-----BEGIN CERTIFICATE-----\n");
        out.push_str(&base64(der));
        out.push_str("\n-----END CERTIFICATE-----\n");
    }
    out.into_bytes()
}

fn no_pool() -> CertificateTrustPolicy {
    CertificateTrustPolicy { trust_anchor_ders: vec![], accepted: vec![] }
}

fn pool(accepted: Vec<ChainCheck>) -> CertificateTrustPolicy {
    CertificateTrustPolicy { trust_anchor_ders: vec![vec![1, 2, 3]], accepted }
}

fn check(chain: &[Vec<u8>], signing_time: Option<i64>) -> ChainCheck {
    ChainCheck {
        intermediates: chain[1..].to_vec(),
        end_entity: chain[0].clone(),
        signing_time,
    }
}

/// Classifies with a path validator that answers every check in the same way.
fn classify(
    signing: &[Vec<u8>],
    tsa: &[Vec<u8>],
    accept: bool,
    assertions: &[(String, Vec<u8>)],
) -> TrustClassification {
    let time = Some(1_700_000_000);
    let mut c2pa = pool(vec![]);
    let mut ctsa = pool(vec![]);
    let checks = trust_checks(&pem(signing), &pem(tsa), time, &c2pa, &ctsa);
    if accept {
        c2pa.accepted.extend(checks.claim);
        ctsa.accepted.extend(checks.timestamp);
    }
    classify_trust("urn:c2pa:1", &pem(signing), &pem(tsa), time, &c2pa, &ctsa, assertions)
}

// --- Names and validity ---

#[test]
fn dn_takes_the_last_text_of_each_attribute() {
    let identity = CertificateIdentity {
        common_names: vec![Some("first".into()), Some("second".into()), None],
        organizations: vec![],
        organizational_units: vec![None],
        countries: vec![None, Some("US".into())],
        not_after: 0,
    };
    let dn = extract_dn(&identity);
    assert_eq!(dn.cn.as_deref(), Some("second"));
    assert_eq!(dn.o, None);
    assert_eq!(dn.ou, None);
    assert_eq!(dn.c.as_deref(), Some("US"));

    let entry = chain_entry(&identity, Some("never".to_string()));
    assert_eq!(entry.dn.cn.as_deref(), Some("second"));
    assert_eq!(entry.valid_until.as_deref(), Some("never"));
}

#[test]
fn entries_come_from_the_certificates() {
    let leaf = certificate(
        &[
            attribute(&C, PRINTABLE_STRING, b"US"),
            attribute(&O, UTF8_STRING, b"Example Org"),
            attribute(&OU, UTF8_STRING, b"Unit A"),
            attribute(&OU, UTF8_STRING, b"Unit B"),
            attribute(&CN, UTF8_STRING, b"Leaf"),
            attribute(&CN, BMP_STRING, &[0, 76]),
        ],
        tlv(UTC_TIME, b"300102030405Z"),
        &[],
    );
    let root = certificate(
        &[attribute(&O, UTF8_STRING, b"Root Org")],
        tlv(GENERALIZED_TIME, b"20991231235959Z"),
        &[],
    );
    let entries = build_chain_entries(&[leaf, vec![0x30, 0x03, 1], root]);
    assert_eq!(entries.len(), 2);
    assert_eq!(entries[0].dn.cn.as_deref(), Some("Leaf"));
    assert_eq!(entries[0].dn.o.as_deref(), Some("Example Org"));
    assert_eq!(entries[0].dn.ou.as_deref(), Some("Unit B"));
    assert_eq!(entries[0].dn.c.as_deref(), Some("US"));
    assert_eq!(entries[0].valid_until.as_deref(), Some("2030-01-02T03:04:05Z"));
    assert_eq!(entries[1].dn.cn, None);
    assert_eq!(entries[1].dn.o.as_deref(), Some("Root Org"));
    assert_eq!(entries[1].valid_until.as_deref(), Some("2099-12-31T23:59:59Z"));
}

#[test]
fn entries_of_joined_chains_are_joined() {
    let first = vec![named("a", &[]), vec![1, 2, 3]];
    let second = vec![named("b", &[]), named("c", &[])];
    let names = |chain: &[Vec<u8>]| -> Vec<Option<String>> {
        build_chain_entries(chain).into_iter().map(|entry| entry.dn.cn).collect()
    };
    let mut expected = names(&first);
    expected.extend(names(&second));
    assert_eq!(names(&[first, second].concat()), expected);
    assert_eq!(expected.len(), 3);
}

#[test]
fn oldest_and_latest_dates_are_formatted() {
    let dated = |date: &[u8]| {
        certificate(
            &[attribute(&CN, UTF8_STRING, b"Dated")],
            tlv(GENERALIZED_TIME, date),
            &[],
        )
    };
    let entries = build_chain_entries(&[dated(b"00000101000000Z"), dated(b"99991231235959Z")]);
    assert_eq!(entries[0].valid_until.as_deref(), Some("0000-01-01T00:00:00Z"));
    assert_eq!(entries[1].valid_until.as_deref(), Some("9999-12-31T23:59:59Z"));
}

// --- PEM ---

#[test]
fn pem_blocks_are_decoded_in_order() {
    let chain = vec![named("leaf", &[]), named("root", &[])];
    assert_eq!(pem_to_der_chain(&pem(&chain)), chain);
    assert!(pem_to_der_chain(b"").is_empty());
    assert!(pem_to_der_chain(b"no block here\n").is_empty());
}

#[test]
fn malformed_pem_blocks_are_left_out() {
    let mut text = pem(&[vec![1, 2, 3]]);
    text.extend_from_slice(b"-----BEGIN CERTIFICATE-----\n!!!\n-----END CERTIFICATE-----\n");
    text.extend_from_slice(&pem(&[vec![4, 5]]));
    text.extend_from_slice(b"-----BEGIN CERTIFICATE-----\nAAAA\n");
    assert_eq!(pem_to_der_chain(&text), vec![vec![1, 2, 3], vec![4, 5]]);
    assert_eq!(
        intact_blocks(&[None, Some(vec![7]), None, Some(vec![])]),
        vec![vec![7], vec![]]
    );
}

// --- Assurance levels ---

#[test]
fn assurance_level_is_read_from_the_leaf() {
    let code = |extensions: &[Vec<u8>]| classify_c2pa_assurance(&named("leaf", extensions));
    assert_eq!(code(&[level(&LEVEL_2)]), TRUST_C2PA_LEVEL_2);
    assert_eq!(code(&[level(&LEVEL_1)]), TRUST_C2PA_LEVEL_1);
    assert_eq!(code(&[level(&[1, 3, 6, 1, 4, 1, 62558, 3, 30])]), TRUST_UNKNOWN);
    assert_eq!(code(&[extension(&LEVEL_EXTENSION, &[0x05, 0x00])]), TRUST_UNKNOWN);
    assert_eq!(code(&[key_usage(&[&DOCUMENT_SIGNING])]), TRUST_UNKNOWN);
    assert_eq!(code(&[]), TRUST_UNKNOWN);
    assert_eq!(classify_c2pa_assurance(&[1, 2, 3]), TRUST_UNKNOWN);
}

#[test]
fn assurance_extension_goes_by_the_text_of_its_identifier() {
    let by_prefix = extension(&[1, 3, 6, 1, 4, 1, 62558, 3], &oid(&LEVEL_2));
    assert_eq!(classify_c2pa_assurance(&named("leaf", &[by_prefix])), TRUST_C2PA_LEVEL_2);
    let longer_arc = extension(&[1, 3, 6, 1, 4, 1, 62558, 30], &oid(&LEVEL_1));
    assert_eq!(classify_c2pa_assurance(&named("leaf", &[longer_arc])), TRUST_C2PA_LEVEL_1);
    let other = extension(&[1, 3, 6, 1, 4, 1, 62558, 4], &oid(&LEVEL_1));
    assert_eq!(classify_c2pa_assurance(&named("leaf", &[other])), TRUST_UNKNOWN);
}

#[test]
fn first_assurance_extension_decides() {
    let first_unknown = [
        extension(&[1, 3, 6, 1, 4, 1, 62558, 3, 7], &[0x05, 0x00]),
        level(&LEVEL_2),
    ];
    assert_eq!(classify_c2pa_assurance(&named("leaf", &first_unknown)), TRUST_UNKNOWN);
    let first_known = [key_usage(&[&EMAIL_PROTECTION]), level(&LEVEL_1)];
    assert_eq!(classify_c2pa_assurance(&named("leaf", &first_known)), TRUST_C2PA_LEVEL_1);

    let plain = |oid: &str, value: u8| Extension {
        oid: oid.to_string(),
        value: vec![value],
        other_purposes: None,
    };
    let extensions = [
        plain("2.5.29.37", 1),
        plain("1.3.6.1.4.1.62558.3.1", 2),
        plain("1.3.6.1.4.1.62558.3.2", 3),
    ];
    assert_eq!(assurance_value(&extensions), Some(vec![2]));
    assert_eq!(assurance_value(&extensions[..1]), None);
}

#[test]
fn level_codes() {
    assert_eq!(level_code(Some("1.3.6.1.4.1.62558.3.20")), "openprov.trust.c2pa.level-2");
    assert_eq!(level_code(Some("1.3.6.1.4.1.62558.3.10")), "openprov.trust.c2pa.level-1");
    assert_eq!(level_code(Some("1.3.6.1.4.1.62558.3.1")), "openprov.trust.unknown");
    assert_eq!(level_code(Some("1.3.6.1.4.1.62558.3.100")), "openprov.trust.unknown");
    assert_eq!(level_code(None), "openprov.trust.unknown");
}

// --- Key usage ---

#[test]
fn document_signing_is_looked_for_in_every_key_usage() {
    assert!(has_document_signing_eku(&named("leaf", &[key_usage(&[&DOCUMENT_SIGNING])])));
    assert!(has_document_signing_eku(&named(
        "leaf",
        &[key_usage(&[&EMAIL_PROTECTION, &[1, 2, 3], &DOCUMENT_SIGNING])]
    )));
    assert!(!has_document_signing_eku(&named("leaf", &[key_usage(&[&EMAIL_PROTECTION])])));
    assert!(!has_document_signing_eku(&named("leaf", &[level(&DOCUMENT_SIGNING)])));
    assert!(!has_document_signing_eku(&named("leaf", &[])));
    assert!(!has_document_signing_eku(b"not a certificate"));

    let usage = |purposes: Option<Vec<String>>| Extension {
        oid: "2.5.29.37".to_string(),
        value: vec![],
        other_purposes: purposes,
    };
    let wanted = Some(vec!["1.2.3".to_string(), EKU_DOCUMENT_SIGNING.to_string()]);
    assert!(permits_document_signing(&[usage(None), usage(wanted)]));
    assert!(!permits_document_signing(&[usage(None), usage(Some(vec!["1.2.3".to_string()]))]));
}

// --- Trust pools ---

#[test]
fn chains_are_trusted_only_as_they_were_checked() {
    let chain = vec![vec![1], vec![2], vec![3]];
    let accepting = pool(vec![check(&chain, Some(5))]);
    assert!(is_chain_trusted(&chain, Some(5), &accepting));
    assert!(!is_chain_trusted(&chain, Some(6), &accepting));
    assert!(!is_chain_trusted(&chain, None, &accepting));
    assert!(!is_chain_trusted(&chain[..2], Some(5), &accepting));
    assert!(!is_chain_trusted(&[], Some(5), &accepting));
    assert!(!is_chain_trusted(&chain, Some(5), &pool(vec![])));

    let mut anchorless = no_pool();
    anchorless.accepted.push(check(&chain, Some(5)));
    assert!(!has_anchors(&anchorless));
    assert!(!is_chain_trusted(&chain, Some(5), &anchorless));
}

#[test]
fn needed_checks_split_the_chain() {
    let chain = vec![vec![1], vec![2], vec![3]];
    let needed = chain_check(&chain, Some(5), &pool(vec![])).unwrap();
    assert_eq!(needed.end_entity, vec![1]);
    assert_eq!(needed.intermediates, vec![vec![2], vec![3]]);
    assert_eq!(needed.signing_time, Some(5));
    assert!(chain_check(&[], Some(5), &pool(vec![])).is_none());
    assert!(chain_check(&chain, Some(5), &no_pool()).is_none());

    let single = vec![vec![7]];
    let trusting = pool(vec![chain_check(&single, None, &pool(vec![])).unwrap()]);
    assert!(is_chain_trusted(&single, None, &trusting));
}

#[test]
fn timestamp_codes() {
    let chain = vec![vec![1], vec![2]];
    let accepting = pool(vec![check(&chain, None)]);
    assert_eq!(timestamp_trust(&[], None, &accepting), "openprov.timestamp.none");
    assert_eq!(timestamp_trust(&chain, None, &accepting), "openprov.timestamp.trusted");
    assert_eq!(timestamp_trust(&chain, Some(1), &accepting), "openprov.timestamp.unknown");
    assert_eq!(timestamp_trust(&chain, None, &no_pool()), "openprov.timestamp.unknown");
}

// --- Classification ---

#[test]
fn trusted_chains_get_their_level() {
    let signing = vec![named("leaf", &[level(&LEVEL_2)]), named("ca", &[])];
    let tsa = vec![named("tsa", &[])];
    let result = classify(&signing, &tsa, true, &[]);
    assert_eq!(result.label, "urn:c2pa:1");
    assert_eq!(result.claim.trust, TRUST_C2PA_LEVEL_2);
    assert_eq!(result.claim.timestamp, TIMESTAMP_TRUSTED);
    assert_eq!(result.claim.chain.len(), 2);
    assert_eq!(result.claim.chain[0].dn.cn.as_deref(), Some("leaf"));
    assert_eq!(result.claim.chain[1].dn.cn.as_deref(), Some("ca"));
    assert_eq!(result.claim.chain[0].valid_until.as_deref(), Some("2030-01-01T00:00:00Z"));
    assert!(result.identities.is_empty());
}

#[test]
fn untrusted_chains_are_unknown_whatever_they_claim() {
    let signing = vec![named("leaf", &[level(&LEVEL_2)])];
    let tsa = vec![named("tsa", &[])];
    let result = classify(&signing, &tsa, false, &[]);
    assert_eq!(result.claim.trust, TRUST_UNKNOWN);
    assert_eq!(result.claim.timestamp, TIMESTAMP_UNKNOWN);
    assert_eq!(result.claim.chain.len(), 1);
}

#[test]
fn empty_chains_are_unknown_and_have_no_timestamp() {
    let result = classify(&[], &[], true, &[]);
    assert_eq!(result.claim.trust, TRUST_UNKNOWN);
    assert_eq!(result.claim.timestamp, TIMESTAMP_NONE);
    assert!(result.claim.chain.is_empty());
}

#[test]
fn pools_without_anchors_trust_nothing() {
    let signing = vec![named("leaf", &[level(&LEVEL_2)])];
    let mut c2pa = no_pool();
    c2pa.accepted.push(check(&signing, None));
    let result =
        classify_trust("m", &pem(&signing), &pem(&signing), None, &c2pa, &no_pool(), &[]);
    assert_eq!(result.claim.trust, TRUST_UNKNOWN);
    assert_eq!(result.claim.timestamp, TIMESTAMP_UNKNOWN);
}

#[test]
fn identities_are_classified_one_by_one() {
    let signer = vec![named("id", &[key_usage(&[&DOCUMENT_SIGNING])]), named("ca", &[])];
    let other = vec![named("other", &[])];
    let assertions = vec![
        ("cawg.identity".to_string(), pem(&signer)),
        ("cawg.identity__2".to_string(), pem(&other)),
        ("cawg.identity__3".to_string(), vec![]),
    ];
    let result = classify(&[], &[], false, &assertions);
    let codes: Vec<(&str, &str, &str, usize)> = result
        .identities
        .iter()
        .map(|entry| {
            (
                entry.label.as_str(),
                entry.result.trust.as_str(),
                entry.result.timestamp.as_str(),
                entry.result.chain.len(),
            )
        })
        .collect();
    assert_eq!(
        codes,
        vec![
            ("cawg.identity", TRUST_CAWG_INTERIM, TIMESTAMP_NONE, 2),
            ("cawg.identity__2", TRUST_UNKNOWN, TIMESTAMP_NONE, 1),
            ("cawg.identity__3", TRUST_UNKNOWN, TIMESTAMP_NONE, 0),
        ]
    );
    let alone = identity_entry("cawg.identity", &pem(&signer));
    assert_eq!(alone.result.trust, "openprov.trust.cawg.interim");
    assert_eq!(alone.result.chain[0].dn.cn.as_deref(), Some("id"));
}

#[test]
fn claim_and_identities_do_not_bear_on_each_other() {
    let signing = vec![named("leaf", &[level(&LEVEL_1)])];
    let assertions =
        vec![("a".to_string(), pem(&[named("id", &[key_usage(&[&DOCUMENT_SIGNING])])]))];
    let with = classify(&signing, &[], true, &assertions);
    let without = classify(&signing, &[], true, &[]);
    assert_eq!(with.claim.trust, TRUST_C2PA_LEVEL_1);
    assert_eq!(with.claim.trust, without.claim.trust);
    let untrusted = classify(&signing, &[], false, &assertions);
    assert_eq!(untrusted.claim.trust, TRUST_UNKNOWN);
    assert_eq!(untrusted.identities[0].result.trust, with.identities[0].result.trust);
}

#[test]
fn only_the_needed_checks_matter() {
    let signing = vec![named("leaf", &[level(&LEVEL_1)])];
    let noise = vec![vec![9, 9]];
    let few = pool(vec![check(&signing, None)]);
    let many = pool(vec![check(&noise, None), check(&signing, None), check(&signing, Some(1))]);
    for c2pa in [few, many] {
        let result = classify_trust("m", &pem(&signing), b"", None, &c2pa, &no_pool(), &[]);
        assert_eq!(result.claim.trust, TRUST_C2PA_LEVEL_1);
        assert_eq!(result.claim.timestamp, TIMESTAMP_NONE);
    }
}

#[test]
fn codes_are_distinct() {
    let trust = [
        TRUST_C2PA_LEVEL_2,
        TRUST_C2PA_LEVEL_1,
        TRUST_C2PA_INTERIM,
        TRUST_CAWG_INTERIM,
        TRUST_UNKNOWN,
    ];
    for i in 0..trust.len() {
        for j in 0..i {
            assert_ne!(trust[i], trust[j]);
        }
    }
    assert_eq!(TRUST_C2PA_INTERIM, "openprov.trust.c2pa.interim");
}
