use openprov::pdf::PdfContents;
use openprov::pdf_io::PdfIO;
use openprov::Error;

const MANIFEST_BYTES: [u8; 2] = [10u8, 20u8];

fn with_manifests(manifests: Result<Option<Vec<Vec<u8>>>, String>) -> PdfContents {
    PdfContents { manifests, xmp: None }
}

#[test]
fn test_error_reading_manifest_fails() {
    let pdf = with_manifests(Err(lopdf::Error::ReferenceLimit.to_string()));
    let pdf_io = PdfIO::new("pdf");
    assert!(matches!(
        pdf_io.read_manifest_bytes(pdf),
        Err(Error::PdfReadError)
    ))
}

#[test]
fn test_no_manifest_found_returns_no_jumbf_error() {
    let pdf = with_manifests(Ok(None));
    let pdf_io = PdfIO::new("pdf");
    assert!(matches!(
        pdf_io.read_manifest_bytes(pdf),
        Err(Error::JumbfNotFound)
    ));
}

#[test]
fn test_one_manifest_found_returns_bytes() {
    let pdf = with_manifests(Ok(Some(vec![MANIFEST_BYTES.to_vec()])));
    let pdf_io = PdfIO::new("pdf");
    assert_eq!(
        pdf_io.read_manifest_bytes(pdf).unwrap(),
        MANIFEST_BYTES.to_vec()
    );
}

#[test]
fn test_multiple_manifest_fail_with_not_implemented_error() {
    let pdf = with_manifests(Ok(Some(vec![
        MANIFEST_BYTES.to_vec(),
        MANIFEST_BYTES.to_vec(),
        MANIFEST_BYTES.to_vec(),
    ])));
    let pdf_io = PdfIO::new("pdf");
    assert!(matches!(
        pdf_io.read_manifest_bytes(pdf),
        Err(Error::NotImplemented(_))
    ));
}

#[test]
fn test_returns_none_when_no_xmp() {
    let pdf = PdfContents { manifests: Ok(None), xmp: None };
    let pdf_io = PdfIO::new("pdf");
    assert_eq!(pdf_io.read_xmp_from_pdf(pdf), None);
}

#[test]
fn test_returns_some_when_some_xmp() {
    let pdf = PdfContents { manifests: Ok(None), xmp: Some("xmp".into()) };
    let pdf_io = PdfIO::new("pdf");
    assert!(pdf_io.read_xmp_from_pdf(pdf).is_some());
}

#[test]
fn test_find_unique_subslice_returns_match_offset() {
    let index = PdfIO::find_unique_subslice(b"abc123xyz", b"123").unwrap();
    assert_eq!(index, 3);
}

#[test]
fn test_find_unique_subslice_rejects_empty_needle() {
    let err = PdfIO::find_unique_subslice(b"abc", b"").unwrap_err();
    assert!(matches!(err, Error::InvalidAsset(_)));
}

#[test]
fn test_find_unique_subslice_rejects_ambiguous_matches() {
    let err = PdfIO::find_unique_subslice(b"abcabc", b"abc").unwrap_err();
    assert!(matches!(err, Error::InvalidAsset(_)));
}
