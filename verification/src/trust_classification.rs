//! Classifying the certificate chains of a manifest against named trust pools.

use vstd::prelude::*;

use crate::bytes::lemma_deep_bytes;
use crate::certificate::{
    der_oid, format_utc, pem_blocks, read_extensions, read_identity, read_oid, read_pem,
    utc_rfc3339, x509_certificate, CertificateIdentity, CertificateIdentityView, Extension,
    ExtensionView,
};
use crate::text::{starts_with, text_equal};
use crate::trust_policy::{
    chain_check, is_chain_trusted, needed_check, trusts, CertificateTrustPolicy,
    CertificateTrustPolicyView, ChainCheck,
};

verus! {

broadcast use lemma_deep_bytes;

/// What the object identifier of a C2PA assurance level extension starts with.
pub const C2PA_ASSURANCE_LEVEL_OID_PREFIX: &'static str = "1.3.6.1.4.1.62558.3";

/// The object identifier of C2PA assurance level 1.
pub const C2PA_ASSURANCE_LEVEL_1: &'static str = "1.3.6.1.4.1.62558.3.10";

/// The object identifier of C2PA assurance level 2.
pub const C2PA_ASSURANCE_LEVEL_2: &'static str = "1.3.6.1.4.1.62558.3.20";

/// The object identifier of the documentSigning key purpose.
pub const EKU_DOCUMENT_SIGNING: &'static str = "1.3.6.1.5.5.7.3.36";

/// A trusted claim signature of C2PA assurance level 2.
pub const TRUST_C2PA_LEVEL_2: &'static str = "openprov.trust.c2pa.level-2";

/// A trusted claim signature of C2PA assurance level 1.
pub const TRUST_C2PA_LEVEL_1: &'static str = "openprov.trust.c2pa.level-1";

/// A claim signature under the C2PA interim trust list, which is not consulted yet.
pub const TRUST_C2PA_INTERIM: &'static str = "openprov.trust.c2pa.interim";

/// An identity assertion whose certificate is meant for document signing.
pub const TRUST_CAWG_INTERIM: &'static str = "openprov.trust.cawg.interim";

/// A signature that nothing vouches for.
pub const TRUST_UNKNOWN: &'static str = "openprov.trust.unknown";

/// A time stamp from a trusted authority.
pub const TIMESTAMP_TRUSTED: &'static str = "openprov.timestamp.trusted";

/// A time stamp from an authority that nothing vouches for.
pub const TIMESTAMP_UNKNOWN: &'static str = "openprov.timestamp.unknown";

/// No time stamp, or one that is not classified.
pub const TIMESTAMP_NONE: &'static str = "openprov.timestamp.none";

/// Distinguished name fields from an X.509 certificate.
#[derive(Clone, Debug)]
pub struct CertDn {
    pub cn: Option<String>,
    pub o: Option<String>,
    pub ou: Option<String>,
    pub c: Option<String>,
}

/// The mathematical value of a [`CertDn`].
pub struct CertDnView {
    pub cn: Option<Seq<char>>,
    pub o: Option<Seq<char>>,
    pub ou: Option<Seq<char>>,
    pub c: Option<Seq<char>>,
}

impl DeepView for CertDn {
    type V = CertDnView;

    open spec fn deep_view(&self) -> CertDnView {
        CertDnView {
            cn: self.cn.deep_view(),
            o: self.o.deep_view(),
            ou: self.ou.deep_view(),
            c: self.c.deep_view(),
        }
    }
}

/// A single entry in a certificate chain (leaf to root).
#[derive(Clone, Debug)]
pub struct ChainEntry {
    pub dn: CertDn,
    /// RFC 3339 timestamp of the certificate's notAfter field.
    pub valid_until: Option<String>,
}

/// The mathematical value of a [`ChainEntry`].
pub struct ChainEntryView {
    pub dn: CertDnView,
    pub valid_until: Option<Seq<char>>,
}

impl DeepView for ChainEntry {
    type V = ChainEntryView;

    open spec fn deep_view(&self) -> ChainEntryView {
        ChainEntryView { dn: self.dn.deep_view(), valid_until: self.valid_until.deep_view() }
    }
}

/// Trust classification result for a signing chain.
///
/// Contains the main trust code, the timestamp trust code, and the certificate
/// chain metadata (DN + validity, leaf to root).
#[derive(Clone, Debug)]
pub struct TrustResult {
    /// Main trust code (e.g. `openprov.trust.c2pa.level-2`).
    pub trust: String,
    /// Certificate chain metadata (leaf to root).
    pub chain: Vec<ChainEntry>,
    /// Timestamp trust code (e.g. `openprov.timestamp.trusted`).
    pub timestamp: String,
}

/// The mathematical value of a [`TrustResult`].
pub struct TrustResultView {
    pub trust: Seq<char>,
    pub chain: Seq<ChainEntryView>,
    pub timestamp: Seq<char>,
}

impl DeepView for TrustResult {
    type V = TrustResultView;

    open spec fn deep_view(&self) -> TrustResultView {
        TrustResultView {
            trust: self.trust@,
            chain: self.chain.deep_view(),
            timestamp: self.timestamp@,
        }
    }
}

/// Trust classification for a single CAWG identity assertion.
#[derive(Clone, Debug)]
pub struct IdentityTrustEntry {
    /// The assertion label (e.g. `cawg.identity` or `cawg.identity__2`).
    pub label: String,
    /// Trust classification for this identity assertion's signing chain.
    pub result: TrustResult,
}

/// The mathematical value of an [`IdentityTrustEntry`].
pub struct IdentityTrustEntryView {
    pub label: Seq<char>,
    pub result: TrustResultView,
}

impl DeepView for IdentityTrustEntry {
    type V = IdentityTrustEntryView;

    open spec fn deep_view(&self) -> IdentityTrustEntryView {
        IdentityTrustEntryView { label: self.label@, result: self.result.deep_view() }
    }
}

/// Combined trust classification for a manifest.
#[derive(Clone, Debug)]
pub struct TrustClassification {
    /// The manifest label (URN).
    pub label: String,
    /// Trust classification for the C2PA claim-signing chain.
    pub claim: TrustResult,
    /// Trust classification for each CAWG identity assertion (may be empty).
    pub identities: Vec<IdentityTrustEntry>,
}

/// The mathematical value of a [`TrustClassification`].
pub struct TrustClassificationView {
    pub label: Seq<char>,
    pub claim: TrustResultView,
    pub identities: Seq<IdentityTrustEntryView>,
}

impl DeepView for TrustClassification {
    type V = TrustClassificationView;

    open spec fn deep_view(&self) -> TrustClassificationView {
        TrustClassificationView {
            label: self.label@,
            claim: self.claim.deep_view(),
            identities: self.identities.deep_view(),
        }
    }
}

/// The items that are there, in order.
pub open spec fn present<T>(items: Seq<Option<T>>) -> Seq<T>
    decreases items.len(),
{
    if items.len() == 0 {
        Seq::empty()
    } else {
        match items.last() {
            Some(item) => present(items.drop_last()).push(item),
            None => present(items.drop_last()),
        }
    }
}

/// The last item that is there.
pub open spec fn last_present<T>(items: Seq<Option<T>>) -> Option<T> {
    if present(items).len() == 0 {
        None
    } else {
        Some(present(items).last())
    }
}

/// The distinguished name of a certificate: of each attribute the last value that
/// is text.
pub open spec fn dn_of(identity: CertificateIdentityView) -> CertDnView {
    CertDnView {
        cn: last_present(identity.common_names),
        o: last_present(identity.organizations),
        ou: last_present(identity.organizational_units),
        c: last_present(identity.countries),
    }
}

/// The entry for a certificate; `None` if `der` holds none.
pub open spec fn entry_of(der: Seq<u8>) -> Option<ChainEntryView> {
    match x509_certificate(der) {
        Some(certificate) => Some(
            ChainEntryView {
                dn: dn_of(certificate.identity),
                valid_until: utc_rfc3339(certificate.identity.not_after),
            },
        ),
        None => None,
    }
}

/// The entries for a chain: what is no certificate is left out.
pub open spec fn entries_of(chain: Seq<Seq<u8>>) -> Seq<ChainEntryView> {
    present(chain.map_values(|der: Seq<u8>| entry_of(der)))
}

/// The chain that PEM text holds: what is malformed is left out.
pub open spec fn der_chain(pem: Seq<u8>) -> Seq<Seq<u8>> {
    present(pem_blocks(pem))
}

/// The value of the first extension that gives a C2PA assurance level.
pub open spec fn assurance_value_of(extensions: Seq<ExtensionView>) -> Option<Seq<u8>>
    decreases extensions.len(),
{
    if extensions.len() == 0 {
        None
    } else if C2PA_ASSURANCE_LEVEL_OID_PREFIX@.is_prefix_of(extensions[0].oid) {
        Some(extensions[0].value)
    } else {
        assurance_value_of(extensions.drop_first())
    }
}

/// The trust code of an assurance level, given by its object identifier.
pub open spec fn code_of_level(level: Option<Seq<char>>) -> Seq<char> {
    if level == Some(C2PA_ASSURANCE_LEVEL_2@) {
        TRUST_C2PA_LEVEL_2@
    } else if level == Some(C2PA_ASSURANCE_LEVEL_1@) {
        TRUST_C2PA_LEVEL_1@
    } else {
        TRUST_UNKNOWN@
    }
}

/// The trust code of a trusted leaf certificate.
pub open spec fn assurance_of(leaf: Seq<u8>) -> Seq<char> {
    match x509_certificate(leaf) {
        Some(certificate) => match assurance_value_of(certificate.extensions) {
            Some(value) => code_of_level(der_oid(value)),
            None => TRUST_UNKNOWN@,
        },
        None => TRUST_UNKNOWN@,
    }
}

/// Some extended key usage among the extensions has the documentSigning purpose.
pub open spec fn allows_document_signing(extensions: Seq<ExtensionView>) -> bool {
    exists|i: int|
        0 <= i < extensions.len() && (#[trigger] extensions[i].other_purposes matches Some(purposes)
            && purposes.contains(EKU_DOCUMENT_SIGNING@))
}

/// A leaf certificate is meant for document signing.
pub open spec fn is_document_signer(leaf: Seq<u8>) -> bool {
    match x509_certificate(leaf) {
        Some(certificate) => allows_document_signing(certificate.extensions),
        None => false,
    }
}

/// The trust code of a claim signature.
pub open spec fn claim_trust_of(
    chain: Seq<Seq<u8>>,
    signing_time: Option<i64>,
    c2pa: CertificateTrustPolicyView,
) -> Seq<char> {
    if trusts(c2pa, chain, signing_time) {
        assurance_of(chain[0])
    } else {
        TRUST_UNKNOWN@
    }
}

/// The trust code of a time stamp.
pub open spec fn timestamp_trust_of(
    chain: Seq<Seq<u8>>,
    signing_time: Option<i64>,
    ctsa: CertificateTrustPolicyView,
) -> Seq<char> {
    if chain.len() == 0 {
        TIMESTAMP_NONE@
    } else if trusts(ctsa, chain, signing_time) {
        TIMESTAMP_TRUSTED@
    } else {
        TIMESTAMP_UNKNOWN@
    }
}

/// The trust code of an identity assertion.
pub open spec fn identity_trust_of(chain: Seq<Seq<u8>>) -> Seq<char> {
    if chain.len() > 0 && is_document_signer(chain[0]) {
        TRUST_CAWG_INTERIM@
    } else {
        TRUST_UNKNOWN@
    }
}

/// The classification of an identity assertion, given by its label and its chain.
pub open spec fn identity_of(assertion: (Seq<char>, Seq<u8>)) -> IdentityTrustEntryView {
    let chain = der_chain(assertion.1);
    IdentityTrustEntryView {
        label: assertion.0,
        result: TrustResultView {
            trust: identity_trust_of(chain),
            chain: entries_of(chain),
            timestamp: TIMESTAMP_NONE@,
        },
    }
}

/// The classification of a manifest.
pub open spec fn classification_of(
    label: Seq<char>,
    signing_pem: Seq<u8>,
    tsa_pem: Seq<u8>,
    signing_time: Option<i64>,
    c2pa: CertificateTrustPolicyView,
    ctsa: CertificateTrustPolicyView,
    assertions: Seq<(Seq<char>, Seq<u8>)>,
) -> TrustClassificationView {
    let signing_chain = der_chain(signing_pem);
    TrustClassificationView {
        label,
        claim: TrustResultView {
            trust: claim_trust_of(signing_chain, signing_time, c2pa),
            chain: entries_of(signing_chain),
            timestamp: timestamp_trust_of(der_chain(tsa_pem), signing_time, ctsa),
        },
        identities: assertions.map_values(|assertion: (Seq<char>, Seq<u8>)| identity_of(assertion)),
    }
}

/// Taking one more item into account.
proof fn lemma_present_step<T>(items: Seq<Option<T>>, count: int)
    requires
        0 <= count < items.len(),
    ensures
        present(items.take(count + 1)) == match items[count] {
            Some(item) => present(items.take(count)).push(item),
            None => present(items.take(count)),
        },
{
    assert(items.take(count + 1).drop_last() =~= items.take(count));
}

/// The last value of an attribute that is text.
fn last_text(values: &[Option<String>]) -> (text: Option<String>)
    ensures
        text.deep_view() == last_present(values.deep_view()),
{
    let mut text: Option<String> = None;
    let mut i: usize = 0;
    while i < values.len()
        invariant
            i <= values.len(),
            text.deep_view() == last_present(values.deep_view().take(i as int)),
        decreases values.len() - i,
    {
        proof {
            lemma_present_step(values.deep_view(), i as int);
        }
        match &values[i] {
            Some(value) => {
                text = Some(value.clone());
            },
            None => {},
        }
        i += 1;
    }
    assert(values.deep_view().take(i as int) =~= values.deep_view());
    text
}

/// The distinguished name of a certificate: of each attribute the last value that
/// is text.
pub fn extract_dn(cert: &CertificateIdentity) -> (dn: CertDn)
    ensures
        dn.deep_view() == dn_of(cert.deep_view()),
{
    CertDn {
        cn: last_text(cert.common_names.as_slice()),
        o: last_text(cert.organizations.as_slice()),
        ou: last_text(cert.organizational_units.as_slice()),
        c: last_text(cert.countries.as_slice()),
    }
}

/// The entry for a certificate whose end of validity reads `valid_until`.
pub fn chain_entry(cert: &CertificateIdentity, valid_until: Option<String>) -> (entry: ChainEntry)
    ensures
        entry.deep_view() == (ChainEntryView {
            dn: dn_of(cert.deep_view()),
            valid_until: valid_until.deep_view(),
        }),
{
    ChainEntry { dn: extract_dn(cert), valid_until }
}

/// Build chain entries (DN + valid_until) from DER cert bytes; what does not parse
/// as a certificate is left out.
pub fn build_chain_entries(chain_der: &[Vec<u8>]) -> (entries: Vec<ChainEntry>)
    ensures
        entries.deep_view() == entries_of(chain_der.deep_view()),
        forall|i: int| 0 <= i < entries@.len() ==> (#[trigger] entries@[i]).valid_until is Some,
{
    let ghost items = chain_der.deep_view().map_values(|der: Seq<u8>| entry_of(der));
    let mut entries: Vec<ChainEntry> = Vec::new();
    let mut i: usize = 0;
    while i < chain_der.len()
        invariant
            i <= chain_der.len(),
            items == chain_der.deep_view().map_values(|der: Seq<u8>| entry_of(der)),
            entries.deep_view() == present(items.take(i as int)),
            forall|k: int| 0 <= k < entries@.len() ==> (#[trigger] entries@[k]).valid_until is Some,
        decreases chain_der.len() - i,
    {
        let ghost built = entries.deep_view();
        proof {
            lemma_present_step(items, i as int);
        }
        match read_identity(chain_der[i].as_slice()) {
            Some(cert) => {
                let valid_until: Option<String> = format_utc(cert.not_after);
                let entry: ChainEntry = chain_entry(&cert, valid_until);
                entries.push(entry);
                assert(entries.deep_view() =~= built.push(entry.deep_view()));
            },
            None => {},
        }
        i += 1;
    }
    assert(items.take(i as int) =~= items);
    entries
}

/// The contents of the PEM blocks that are well-formed.
pub fn intact_blocks(blocks: &[Option<Vec<u8>>]) -> (contents: Vec<Vec<u8>>)
    ensures
        contents.deep_view() == present(blocks.deep_view()),
{
    let mut contents: Vec<Vec<u8>> = Vec::new();
    let mut i: usize = 0;
    while i < blocks.len()
        invariant
            i <= blocks.len(),
            contents.deep_view() == present(blocks.deep_view().take(i as int)),
        decreases blocks.len() - i,
    {
        let ghost taken = contents.deep_view();
        proof {
            lemma_present_step(blocks.deep_view(), i as int);
        }
        match &blocks[i] {
            Some(block) => {
                contents.push(vstd::slice::slice_to_vec(block.as_slice()));
                assert(contents.deep_view() =~= taken.push(block@));
            },
            None => {},
        }
        i += 1;
    }
    assert(blocks.deep_view().take(i as int) =~= blocks.deep_view());
    contents
}

/// Parse PEM-encoded certificate bytes into DER vectors.
pub fn pem_to_der_chain(pem_bytes: &[u8]) -> (chain_der: Vec<Vec<u8>>)
    ensures
        chain_der.deep_view() == der_chain(pem_bytes@),
        pem_bytes@.len() == 0 ==> chain_der@.len() == 0,
{
    let blocks: Vec<Option<Vec<u8>>> = read_pem(pem_bytes);
    let chain_der: Vec<Vec<u8>> = intact_blocks(blocks.as_slice());
    proof {
        if blocks@.len() == 0 {
            assert(blocks.deep_view() =~= Seq::empty());
            assert(chain_der.deep_view().len() == 0);
        }
    }
    chain_der
}

/// The value of the first extension that gives a C2PA assurance level.
pub fn assurance_value(extensions: &[Extension]) -> (value: Option<Vec<u8>>)
    ensures
        value.deep_view() == assurance_value_of(extensions.deep_view()),
{
    assert(extensions.deep_view().skip(0) =~= extensions.deep_view());
    let mut i: usize = 0;
    while i < extensions.len()
        invariant
            i <= extensions.len(),
            assurance_value_of(extensions.deep_view()) == assurance_value_of(
                extensions.deep_view().skip(i as int),
            ),
        decreases extensions.len() - i,
    {
        let extension: &Extension = &extensions[i];
        assert(extensions.deep_view().skip(i as int)[0] == extension.deep_view());
        if starts_with(extension.oid.as_str(), C2PA_ASSURANCE_LEVEL_OID_PREFIX) {
            return Some(vstd::slice::slice_to_vec(extension.value.as_slice()));
        }
        assert(extensions.deep_view().skip(i as int).drop_first()
            =~= extensions.deep_view().skip(i + 1));
        i += 1;
    }
    None
}

/// The trust code of an assurance level, given by its object identifier in dotted
/// form.
pub fn level_code(level: Option<&str>) -> (code: &'static str)
    ensures
        code@ == code_of_level(level.deep_view()),
{
    match level {
        Some(level) => {
            if text_equal(level, C2PA_ASSURANCE_LEVEL_2) {
                TRUST_C2PA_LEVEL_2
            } else if text_equal(level, C2PA_ASSURANCE_LEVEL_1) {
                TRUST_C2PA_LEVEL_1
            } else {
                TRUST_UNKNOWN
            }
        },
        None => TRUST_UNKNOWN,
    }
}

/// Check if a DER-encoded leaf cert has the C2PA assurance level extension and
/// return the trust code.
pub fn classify_c2pa_assurance(leaf_der: &[u8]) -> (code: &'static str)
    ensures
        code@ == assurance_of(leaf_der@),
{
    let extensions: Vec<Extension> = match read_extensions(leaf_der) {
        Some(extensions) => extensions,
        None => {
            return TRUST_UNKNOWN;
        },
    };
    match assurance_value(extensions.as_slice()) {
        Some(value) => {
            let level: Option<String> = read_oid(value.as_slice());
            match &level {
                Some(level) => level_code(Some(level.as_str())),
                None => level_code(None),
            }
        },
        None => TRUST_UNKNOWN,
    }
}

/// Whether an object identifier is among those of a list.
fn lists_purpose(purposes: &[String], wanted: &str) -> (listed: bool)
    ensures
        listed == purposes.deep_view().contains(wanted@),
{
    let mut i: usize = 0;
    while i < purposes.len()
        invariant
            i <= purposes.len(),
            forall|j: int| 0 <= j < i ==> purposes.deep_view()[j] != wanted@,
        decreases purposes.len() - i,
    {
        if text_equal(purposes[i].as_str(), wanted) {
            assert(purposes.deep_view()[i as int] == wanted@);
            return true;
        }
        i += 1;
    }
    false
}

/// Whether some extended key usage among the extensions has the documentSigning
/// purpose.
pub fn permits_document_signing(extensions: &[Extension]) -> (permitted: bool)
    ensures
        permitted == allows_document_signing(extensions.deep_view()),
{
    let mut i: usize = 0;
    while i < extensions.len()
        invariant
            i <= extensions.len(),
            forall|j: int|
                0 <= j < i ==> !(#[trigger] extensions.deep_view()[j].other_purposes matches Some(
                    purposes,
                ) && purposes.contains(EKU_DOCUMENT_SIGNING@)),
        decreases extensions.len() - i,
    {
        let ghost seen = extensions.deep_view()[i as int];
        assert(seen == extensions[i as int].deep_view());
        match &extensions[i].other_purposes {
            Some(purposes) => {
                if lists_purpose(purposes.as_slice(), EKU_DOCUMENT_SIGNING) {
                    assert(purposes.deep_view() =~= seen.other_purposes->0);
                    return true;
                }
                assert(purposes.deep_view() =~= seen.other_purposes->0);
            },
            None => {},
        }
        i += 1;
    }
    false
}

/// Check if a DER-encoded leaf cert has the documentSigning EKU.
pub fn has_document_signing_eku(leaf_der: &[u8]) -> (has: bool)
    ensures
        has == is_document_signer(leaf_der@),
{
    match read_extensions(leaf_der) {
        Some(extensions) => permits_document_signing(extensions.as_slice()),
        None => false,
    }
}

/// The trust code of a claim signature: the assurance level of its leaf
/// certificate, if the C2PA pool trusts the chain.
pub fn claim_trust(
    signing_chain_der: &[Vec<u8>],
    signing_time: Option<i64>,
    c2pa_ctp: &CertificateTrustPolicy,
) -> (code: &'static str)
    ensures
        code@ == claim_trust_of(signing_chain_der.deep_view(), signing_time, c2pa_ctp.deep_view()),
{
    if is_chain_trusted(signing_chain_der, signing_time, c2pa_ctp) {
        assert(signing_chain_der.deep_view().len() == signing_chain_der@.len());
        classify_c2pa_assurance(signing_chain_der[0].as_slice())
    } else {
        TRUST_UNKNOWN
    }
}

/// The trust code of a time stamp: whether there is one, and whether the CTSA pool
/// trusts its chain.
pub fn timestamp_trust(
    tsa_chain_der: &[Vec<u8>],
    signing_time: Option<i64>,
    ctsa_ctp: &CertificateTrustPolicy,
) -> (code: &'static str)
    ensures
        code@ == timestamp_trust_of(tsa_chain_der.deep_view(), signing_time, ctsa_ctp.deep_view()),
{
    if tsa_chain_der.is_empty() {
        TIMESTAMP_NONE
    } else if is_chain_trusted(tsa_chain_der, signing_time, ctsa_ctp) {
        TIMESTAMP_TRUSTED
    } else {
        TIMESTAMP_UNKNOWN
    }
}

/// The classification of an identity assertion. Its time stamp is not classified.
pub fn identity_entry(label: &str, pem_bytes: &[u8]) -> (entry: IdentityTrustEntry)
    ensures
        entry.deep_view() == identity_of((label@, pem_bytes@)),
        pem_bytes@.len() == 0 ==> entry.result.trust@ == TRUST_UNKNOWN@,
{
    let chain_der: Vec<Vec<u8>> = pem_to_der_chain(pem_bytes);
    let trust: &'static str = if !chain_der.is_empty() && has_document_signing_eku(
        chain_der[0].as_slice(),
    ) {
        TRUST_CAWG_INTERIM
    } else {
        TRUST_UNKNOWN
    };
    IdentityTrustEntry {
        label: label.to_string(),
        result: TrustResult {
            trust: trust.to_string(),
            chain: build_chain_entries(chain_der.as_slice()),
            timestamp: TIMESTAMP_NONE.to_string(),
        },
    }
}

/// Classify trust for the manifest's claim-signing and TSA certificate chains, plus
/// all CAWG identity assertions.
///
/// `manifest_label` is the manifest URN. `signing_chain_pem` and `tsa_chain_pem` are
/// PEM-encoded cert chains (leaf first). `cawg_chains` is a slice of
/// `(label, pem_bytes)` pairs, one per `cawg.identity` assertion found in the
/// manifest. The checks that [`trust_checks`] names must have been made, and noted
/// in the two pools where they succeeded.
pub fn classify_trust(
    manifest_label: &str,
    signing_chain_pem: &[u8],
    tsa_chain_pem: &[u8],
    signing_time: Option<i64>,
    c2pa_ctp: &CertificateTrustPolicy,
    ctsa_ctp: &CertificateTrustPolicy,
    cawg_chains: &[(String, Vec<u8>)],
) -> (classification: TrustClassification)
    ensures
        classification.deep_view() == classification_of(
            manifest_label@,
            signing_chain_pem@,
            tsa_chain_pem@,
            signing_time,
            c2pa_ctp.deep_view(),
            ctsa_ctp.deep_view(),
            cawg_chains.deep_view(),
        ),
        signing_chain_pem@.len() == 0 ==> classification.claim.trust@ == TRUST_UNKNOWN@,
        tsa_chain_pem@.len() == 0 ==> classification.claim.timestamp@ == TIMESTAMP_NONE@,
{
    let signing_chain_der: Vec<Vec<u8>> = pem_to_der_chain(signing_chain_pem);
    let tsa_chain_der: Vec<Vec<u8>> = pem_to_der_chain(tsa_chain_pem);
    let c2pa_trust: &'static str = claim_trust(signing_chain_der.as_slice(), signing_time, c2pa_ctp);
    let tsa_trust: &'static str = timestamp_trust(tsa_chain_der.as_slice(), signing_time, ctsa_ctp);

    let ghost expected = cawg_chains.deep_view().map_values(
        |assertion: (Seq<char>, Seq<u8>)| identity_of(assertion),
    );
    let mut identities: Vec<IdentityTrustEntry> = Vec::new();
    let mut i: usize = 0;
    while i < cawg_chains.len()
        invariant
            i <= cawg_chains.len(),
            expected == cawg_chains.deep_view().map_values(
                |assertion: (Seq<char>, Seq<u8>)| identity_of(assertion),
            ),
            identities.deep_view() == expected.take(i as int),
        decreases cawg_chains.len() - i,
    {
        let ghost built = identities.deep_view();
        let entry: IdentityTrustEntry = identity_entry(
            cawg_chains[i].0.as_str(),
            cawg_chains[i].1.as_slice(),
        );
        identities.push(entry);
        assert(identities.deep_view() =~= built.push(entry.deep_view()));
        assert(entry.deep_view() == expected[i as int]);
        assert(expected.take(i + 1) =~= expected.take(i as int).push(expected[i as int]));
        i += 1;
    }
    assert(expected.take(i as int) =~= expected);

    TrustClassification {
        label: manifest_label.to_string(),
        claim: TrustResult {
            trust: c2pa_trust.to_string(),
            chain: build_chain_entries(signing_chain_der.as_slice()),
            timestamp: tsa_trust.to_string(),
        },
        identities,
    }
}

/// The checks that a classification rests on.
#[derive(Debug)]
pub struct TrustChecks {
    /// Of the claim-signing chain, against the C2PA pool.
    pub claim: Option<ChainCheck>,
    /// Of the time-stamping chain, against the CTSA pool.
    pub timestamp: Option<ChainCheck>,
}

/// The checks that a path validator has to make before [`classify_trust`] is called
/// with the same chains, time and anchors.
pub fn trust_checks(
    signing_chain_pem: &[u8],
    tsa_chain_pem: &[u8],
    signing_time: Option<i64>,
    c2pa_ctp: &CertificateTrustPolicy,
    ctsa_ctp: &CertificateTrustPolicy,
) -> (checks: TrustChecks)
    ensures
        checks.claim.deep_view() == needed_check(
            der_chain(signing_chain_pem@),
            signing_time,
            c2pa_ctp.deep_view().trust_anchor_ders,
        ),
        checks.timestamp.deep_view() == needed_check(
            der_chain(tsa_chain_pem@),
            signing_time,
            ctsa_ctp.deep_view().trust_anchor_ders,
        ),
{
    let signing_chain_der: Vec<Vec<u8>> = pem_to_der_chain(signing_chain_pem);
    let tsa_chain_der: Vec<Vec<u8>> = pem_to_der_chain(tsa_chain_pem);
    TrustChecks {
        claim: chain_check(signing_chain_der.as_slice(), signing_time, c2pa_ctp),
        timestamp: chain_check(tsa_chain_der.as_slice(), signing_time, ctsa_ctp),
    }
}

} // verus!
