//! What trust classification reads of X.509 certificates.
//!
//! Decoding PEM, DER and object identifiers and formatting dates is left to
//! `x509_parser`, `asn1_rs` and `chrono`. The functions of this module that call
//! them are the only ones of the library whose contracts are taken on trust.

use asn1_rs::{FromDer, Oid};
use vstd::prelude::*;
use x509_parser::certificate::X509Certificate;
use x509_parser::extensions::ParsedExtension;
use x509_parser::pem::Pem;
use x509_parser::x509::AttributeTypeAndValue;

verus! {

/// The subject and the end of validity of a certificate.
///
/// Each list holds the values of one attribute of the subject in the order in
/// which they stand there; a value that is no text is `None`.
#[derive(Debug)]
pub struct CertificateIdentity {
    pub common_names: Vec<Option<String>>,
    pub organizations: Vec<Option<String>>,
    pub organizational_units: Vec<Option<String>>,
    pub countries: Vec<Option<String>>,
    /// The `notAfter` time, in seconds since the Unix epoch.
    pub not_after: i64,
}

/// The mathematical value of a [`CertificateIdentity`].
pub struct CertificateIdentityView {
    pub common_names: Seq<Option<Seq<char>>>,
    pub organizations: Seq<Option<Seq<char>>>,
    pub organizational_units: Seq<Option<Seq<char>>>,
    pub countries: Seq<Option<Seq<char>>>,
    pub not_after: i64,
}

impl DeepView for CertificateIdentity {
    type V = CertificateIdentityView;

    open spec fn deep_view(&self) -> CertificateIdentityView {
        CertificateIdentityView {
            common_names: self.common_names.deep_view(),
            organizations: self.organizations.deep_view(),
            organizational_units: self.organizational_units.deep_view(),
            countries: self.countries.deep_view(),
            not_after: self.not_after,
        }
    }
}

/// An extension of a certificate.
#[derive(Debug)]
pub struct Extension {
    /// The extension's object identifier, in dotted form.
    pub oid: String,
    /// The extension's value, undecoded.
    pub value: Vec<u8>,
    /// For an extended key usage, the object identifiers of its purposes beyond
    /// the registered ones, in dotted form.
    pub other_purposes: Option<Vec<String>>,
}

/// The mathematical value of an [`Extension`].
pub struct ExtensionView {
    pub oid: Seq<char>,
    pub value: Seq<u8>,
    pub other_purposes: Option<Seq<Seq<char>>>,
}

impl DeepView for Extension {
    type V = ExtensionView;

    open spec fn deep_view(&self) -> ExtensionView {
        ExtensionView {
            oid: self.oid@,
            value: self.value@,
            other_purposes: self.other_purposes.deep_view(),
        }
    }
}

/// What is read of a certificate.
pub struct CertificateView {
    pub identity: CertificateIdentityView,
    pub extensions: Seq<ExtensionView>,
}

/// What `X509Certificate::from_der` reads at the start of `der`; `None` if it
/// finds no certificate there.
pub uninterp spec fn x509_certificate(der: Seq<u8>) -> Option<CertificateView>;

/// What `Pem::iter_from_buffer` yields for `buffer`, block by block: the decoded
/// contents, or `None` for a block that is malformed.
pub uninterp spec fn pem_blocks(buffer: Seq<u8>) -> Seq<Option<Seq<u8>>>;

/// The dotted form of the object identifier that `Oid::from_der` reads at the
/// start of `der`; `None` if it finds none there.
pub uninterp spec fn der_oid(der: Seq<u8>) -> Option<Seq<char>>;

/// What `DateTime::to_rfc3339_opts` writes, to the second and with `Z`, for the
/// UTC time that is `seconds` after the Unix epoch; `None` if
/// `DateTime::from_timestamp` has no such time.
pub uninterp spec fn utc_rfc3339(seconds: i64) -> Option<Seq<char>>;

/// The earliest time that `chrono` knows, the start of the year -262143.
pub const FIRST_SECOND: i64 = -8_334_601_228_800;

/// The latest time that `chrono` knows, the end of the year 262142.
pub const LAST_SECOND: i64 = 8_210_266_876_799;

/// Calls `x509_parser::pem::Pem::iter_from_buffer` and collects what the iterator
/// yields.
///
/// Trusted: the blocks depend on the buffer alone, and an empty buffer has none.
#[verifier::external_body]
pub(crate) fn read_pem(buffer: &[u8]) -> (blocks: Vec<Option<Vec<u8>>>)
    ensures
        blocks.deep_view() == pem_blocks(buffer@),
        buffer@.len() == 0 ==> blocks@.len() == 0,
{
    Pem::iter_from_buffer(buffer).map(|block| block.ok().map(|pem| pem.contents)).collect()
}

/// Calls `x509_parser`'s `X509Certificate::from_der` and takes the subject's
/// attributes and the end of validity out of the certificate.
///
/// Trusted: whether a certificate is found, and what it says, depends on the bytes
/// alone; its end of validity, a date with a year of two or four digits, is a time
/// that `chrono` knows.
#[verifier::external_body]
pub(crate) fn read_identity(der: &[u8]) -> (identity: Option<CertificateIdentity>)
    ensures
        identity.deep_view() == match x509_certificate(der@) {
            Some(certificate) => Some(certificate.identity),
            None => None,
        },
        identity matches Some(cert) ==> FIRST_SECOND <= cert.not_after <= LAST_SECOND,
{
    let (_, certificate) = X509Certificate::from_der(der).ok()?;
    let text = |attribute: &AttributeTypeAndValue| attribute.as_str().ok().map(String::from);
    let subject = certificate.subject();
    Some(CertificateIdentity {
        common_names: subject.iter_common_name().map(text).collect(),
        organizations: subject.iter_organization().map(text).collect(),
        organizational_units: subject.iter_organizational_unit().map(text).collect(),
        countries: subject.iter_country().map(text).collect(),
        not_after: certificate.validity().not_after.timestamp(),
    })
}

/// Calls `x509_parser`'s `X509Certificate::from_der` and takes the extensions out
/// of the certificate.
///
/// Trusted: whether a certificate is found, and what it says, depends on the bytes
/// alone; it is the certificate that [`read_identity`] finds in the same bytes.
#[verifier::external_body]
pub(crate) fn read_extensions(der: &[u8]) -> (extensions: Option<Vec<Extension>>)
    ensures
        extensions.deep_view() == match x509_certificate(der@) {
            Some(certificate) => Some(certificate.extensions),
            None => None,
        },
{
    let (_, certificate) = X509Certificate::from_der(der).ok()?;
    Some(certificate.extensions().iter().map(|extension| Extension {
        oid: extension.oid.to_string(),
        value: extension.value.to_vec(),
        other_purposes: match extension.parsed_extension() {
            ParsedExtension::ExtendedKeyUsage(usage) => {
                Some(usage.other.iter().map(|oid| oid.to_string()).collect())
            }
            _ => None,
        },
    }).collect())
}

/// Calls `asn1_rs`'s `Oid::from_der` and writes the identifier out in dotted form.
///
/// Trusted: the result depends on the bytes alone.
#[verifier::external_body]
pub(crate) fn read_oid(der: &[u8]) -> (oid: Option<String>)
    ensures
        oid.deep_view() == der_oid(der@),
{
    Oid::from_der(der).ok().map(|(_, oid)| oid.to_string())
}

/// Calls `chrono::DateTime::from_timestamp` and formats the time with
/// `to_rfc3339_opts`, to the second and with `Z` for the zone.
///
/// Trusted: the text depends on the seconds alone, and there is one exactly for the
/// times that `chrono` knows.
#[verifier::external_body]
pub(crate) fn format_utc(seconds: i64) -> (text: Option<String>)
    ensures
        text.deep_view() == utc_rfc3339(seconds),
        text is Some <==> FIRST_SECOND <= seconds <= LAST_SECOND,
{
    chrono::DateTime::from_timestamp(seconds, 0)
        .map(|time| time.to_rfc3339_opts(chrono::SecondsFormat::Secs, true))
}

} // verus!
