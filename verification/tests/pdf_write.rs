use openprov::cai_write::CaiWrite;
use openprov::object_locations::{
    positions_around, HashBlockObjectType, HashObjectPositions, ObjectLocating, LOCATION_MARKER,
};
use openprov::pdf::{ManifestEdit, PdfContents, PdfReply, PdfRequest, Progress};
use openprov::pdf_io::{PdfError, PdfIO};
use openprov::Error;

fn handler() -> PdfIO {
    PdfIO::new("pdf")
}

fn contents(manifests: Option<Vec<Vec<u8>>>) -> PdfReply {
    PdfReply::Contents(Ok(PdfContents { manifests: Ok(manifests), xmp: None }))
}

fn opened(has_manifest: bool) -> PdfReply {
    PdfReply::Opened(Ok(has_manifest))
}

fn edited() -> PdfReply {
    PdfReply::Edited(Ok(()))
}

fn saved(bytes: &[u8]) -> PdfReply {
    PdfReply::Saved(Ok(bytes.to_vec()))
}

fn asked<T>(step: &Progress<T>) -> String {
    match step {
        Progress::Ask(PdfRequest::ReadContents) => "read".to_string(),
        Progress::Ask(PdfRequest::OpenForEdit) => "open".to_string(),
        Progress::Ask(PdfRequest::Edit(ManifestEdit::Remove)) => "remove".to_string(),
        Progress::Ask(PdfRequest::Edit(ManifestEdit::Replace(bytes))) => {
            format!("replace {}", String::from_utf8_lossy(bytes))
        }
        Progress::Ask(PdfRequest::Edit(ManifestEdit::Embed(bytes))) => {
            format!("embed {}", String::from_utf8_lossy(bytes))
        }
        Progress::Ask(PdfRequest::Save) => "save".to_string(),
        Progress::Done(_) => "done".to_string(),
    }
}

fn run_write(mut write: CaiWrite, replies: Vec<PdfReply>) -> (Vec<String>, CaiWrite) {
    let mut requests = vec![asked(write.step())];
    for reply in replies {
        write = write.resume(reply);
        requests.push(asked(write.step()));
    }
    (requests, write)
}

fn run_search(
    mut locating: ObjectLocating,
    replies: Vec<PdfReply>,
) -> (Vec<String>, ObjectLocating) {
    let mut requests = vec![asked(locating.step())];
    for reply in replies {
        locating = locating.resume(reply);
        requests.push(asked(locating.step()));
    }
    (requests, locating)
}

fn invalid_asset<T>(result: Option<Result<T, Error>>) -> String {
    match result {
        Some(Err(Error::InvalidAsset(reason))) => reason,
        _ => panic!("expected an invalid asset"),
    }
}

// --- Searching ---

#[test]
fn search_errors_tell_their_reason() {
    let reason = |haystack: &[u8], needle: &[u8]| {
        invalid_asset(Some(PdfIO::find_unique_subslice(haystack, needle)))
    };
    assert_eq!(reason(b"abc", b""), "embedded C2PA manifest in PDF is empty");
    assert_eq!(reason(b"", b""), "embedded C2PA manifest in PDF is empty");
    assert_eq!(reason(b"abc", b"x"), "unable to locate embedded C2PA manifest bytes in PDF");
    assert_eq!(reason(b"ab", b"abc"), "unable to locate embedded C2PA manifest bytes in PDF");
    assert_eq!(
        reason(b"abcabc", b"abc"),
        "embedded C2PA manifest bytes appear multiple times in PDF"
    );
    assert_eq!(
        reason(b"aaa", b"aa"),
        "embedded C2PA manifest bytes appear multiple times in PDF"
    );
    assert_eq!(PdfIO::find_unique_subslice(b"abc", b"abc").unwrap(), 0);
    assert_eq!(PdfIO::find_unique_subslice(b"abc", b"c").unwrap(), 2);
}

#[test]
fn manifest_range_is_located() {
    let locate = |manifests: Result<Option<Vec<Vec<u8>>>, String>| {
        handler().locate_manifest_range_in_bytes(
            b"xxSTOREyy",
            Ok(PdfContents { manifests, xmp: None }),
        )
    };
    assert_eq!(locate(Ok(Some(vec![b"STORE".to_vec()]))).unwrap(), Some((2, 5)));
    assert_eq!(locate(Ok(None)).unwrap(), None);
    assert!(matches!(
        locate(Ok(Some(vec![]))),
        Err(Error::NotImplemented(reason)) if reason == "c2pa-rs only supports PDFs with one manifest"
    ));
    assert!(matches!(
        locate(Ok(Some(vec![b"x".to_vec(), b"y".to_vec()]))),
        Err(Error::NotImplemented(_))
    ));
    assert!(matches!(
        locate(Err("broken".to_string())),
        Err(Error::InvalidAsset(reason)) if reason == "broken"
    ));
    assert!(matches!(
        handler().locate_manifest_range_in_bytes(b"", Err("no pdf".to_string())),
        Err(Error::InvalidAsset(reason)) if reason == "no pdf"
    ));
}

// --- Reading ---

#[test]
fn reading_passes_on_what_the_document_says() {
    let pdf = |manifests| PdfContents { manifests, xmp: Some("<x/>".to_string()) };
    assert_eq!(handler().read_cai(Ok(pdf(Ok(Some(vec![vec![1, 2]]))))).unwrap(), vec![1, 2]);
    assert!(matches!(handler().read_cai(Ok(pdf(Ok(None)))), Err(Error::JumbfNotFound)));
    assert!(matches!(
        handler().read_cai(Ok(pdf(Err("bad".to_string())))),
        Err(Error::PdfReadError)
    ));
    assert!(matches!(
        handler().read_cai(Ok(pdf(Ok(Some(vec![]))))),
        Err(Error::NotImplemented(reason))
            if reason == "c2pa-rs only supports reading PDFs with one manifest"
    ));
    assert!(matches!(
        handler().read_cai(Err("no pdf".to_string())),
        Err(Error::InvalidAsset(reason)) if reason == "no pdf"
    ));
    assert_eq!(handler().read_xmp(Ok(pdf(Ok(None)))).as_deref(), Some("<x/>"));
    assert_eq!(handler().read_xmp(Err("no pdf".to_string())), None);
}

#[test]
fn handler_basics() {
    assert_eq!(handler().supported_types(), vec!["pdf", "application/pdf"]);
    assert_eq!(handler().compose_manifest(&[1, 2, 3], "pdf").unwrap(), vec![1, 2, 3]);
    let error = PdfError::InvalidFileSignature { reason: "no header".to_string() };
    assert_eq!(error.message(), "invalid file signature: no header");
}

// --- Writing ---

#[test]
fn same_size_store_is_patched_in_place() {
    let write = handler().write_cai(b"xxOLDyy".to_vec(), b"NEW");
    assert_eq!(write.input_bytes(), b"xxOLDyy");
    let (requests, write) = run_write(write, vec![contents(Some(vec![b"OLD".to_vec()]))]);
    assert_eq!(requests, vec!["read", "done"]);
    let out = write.into_result().unwrap().unwrap();
    assert_eq!(out, b"xxNEWyy");

    // the new store is located where the old manifest was, and can be taken back
    let pdf = PdfContents { manifests: Ok(Some(vec![b"NEW".to_vec()])), xmp: None };
    let range = handler().locate_manifest_range_in_bytes(&out, Ok(pdf)).unwrap();
    assert_eq!(range, Some((2, 3)));
    let back = handler().write_cai(out, b"OLD").resume(contents(Some(vec![b"NEW".to_vec()])));
    assert_eq!(back.into_result().unwrap().unwrap(), b"xxOLDyy");
}

#[test]
fn store_of_another_size_replaces_the_manifest() {
    let (requests, write) = run_write(
        handler().write_cai(b"xxOLDyy".to_vec(), b"LONGER"),
        vec![
            contents(Some(vec![b"OLD".to_vec()])),
            opened(true),
            edited(),
            saved(b"xxLONGERyy"),
        ],
    );
    assert_eq!(requests, vec!["read", "open", "replace LONGER", "save", "done"]);
    assert_eq!(write.into_result().unwrap().unwrap(), b"xxLONGERyy");
}

#[test]
fn first_store_is_embedded() {
    let (requests, write) = run_write(
        handler().write_cai(b"xxyy".to_vec(), b"NEW"),
        vec![contents(None), opened(false), edited(), saved(b"xxNEWyy")],
    );
    assert_eq!(requests, vec!["read", "open", "embed NEW", "save", "done"]);
    assert_eq!(write.into_result().unwrap().unwrap(), b"xxNEWyy");
}

#[test]
fn empty_store_takes_the_manifest_out() {
    let (requests, write) = run_write(
        handler().remove_cai_store_from_stream(b"xxOLDyy".to_vec()),
        vec![opened(true), edited(), saved(b"xxyy")],
    );
    assert_eq!(requests, vec!["open", "remove", "save", "done"]);
    assert_eq!(write.into_result().unwrap().unwrap(), b"xxyy");

    let (requests, write) = run_write(
        handler().write_cai(b"xxyy".to_vec(), b""),
        vec![opened(false), saved(b"xx yy")],
    );
    assert_eq!(requests, vec!["open", "save", "done"]);
    assert_eq!(write.into_result().unwrap().unwrap(), b"xx yy");
}

#[test]
fn replies_to_other_requests_are_ignored() {
    let (requests, write) = run_write(
        handler().write_cai(b"xxyy".to_vec(), b"NEW"),
        vec![saved(b"?"), edited(), opened(true), contents(None), contents(None), saved(b"?")],
    );
    assert_eq!(requests, vec!["read", "read", "read", "read", "open", "open", "open"]);
    assert!(write.into_result().is_none());

    let done = handler().write_cai(b"OLD".to_vec(), b"NEW").resume(contents(Some(vec![
        b"OLD".to_vec(),
    ])));
    let done = done.resume(opened(true)).resume(saved(b"?"));
    assert_eq!(done.into_result().unwrap().unwrap(), b"NEW");
}

#[test]
fn engine_failures_end_a_write() {
    let failed = || "engine".to_string();
    let start = || handler().write_cai(b"xxyy".to_vec(), b"NEW");
    let write = start().resume(PdfReply::Contents(Err(failed())));
    assert_eq!(invalid_asset(write.into_result()), "engine");
    let write = start().resume(contents(None)).resume(PdfReply::Opened(Err(failed())));
    assert_eq!(invalid_asset(write.into_result()), "engine");
    let write =
        start().resume(contents(None)).resume(opened(true)).resume(PdfReply::Edited(Err(failed())));
    assert_eq!(invalid_asset(write.into_result()), "engine");
    let write = start()
        .resume(contents(None))
        .resume(opened(true))
        .resume(edited())
        .resume(PdfReply::Saved(Err(failed())));
    assert_eq!(invalid_asset(write.into_result()), "engine");
}

#[test]
fn unlocatable_manifest_ends_a_write() {
    let ambiguous = handler()
        .write_cai(b"OLD OLD".to_vec(), b"NEW")
        .resume(contents(Some(vec![b"OLD".to_vec()])));
    assert_eq!(
        invalid_asset(ambiguous.into_result()),
        "embedded C2PA manifest bytes appear multiple times in PDF"
    );
    let several = handler()
        .write_cai(b"AB".to_vec(), b"N")
        .resume(contents(Some(vec![b"A".to_vec(), b"B".to_vec()])));
    assert!(matches!(several.into_result(), Some(Err(Error::NotImplemented(_)))));
}

// --- Locating ---

fn range(offset: usize, length: usize, htype: HashBlockObjectType) -> HashObjectPositions {
    HashObjectPositions { offset, length, htype }
}

#[test]
fn ranges_split_the_file() {
    let ranges = positions_around(2, 5, 9);
    assert_eq!(
        ranges,
        vec![
            range(2, 5, HashBlockObjectType::Cai),
            range(0, 2, HashBlockObjectType::Other),
            range(7, 2, HashBlockObjectType::Other),
        ]
    );
    for offset in 0..9 {
        let covering =
            ranges.iter().filter(|r| r.offset <= offset && offset < r.offset + r.length).count();
        assert_eq!(covering, 1);
    }
    assert_eq!(positions_around(2, 5, 3)[2], range(7, 0, HashBlockObjectType::Other));
}

#[test]
fn present_manifest_is_located_in_the_input() {
    let (requests, locating) = run_search(
        handler().get_object_locations_from_stream(b"xxSTOREyy".to_vec()),
        vec![contents(Some(vec![b"STORE".to_vec()]))],
    );
    assert_eq!(requests, vec!["read", "done"]);
    assert_eq!(locating.into_result().unwrap().unwrap(), positions_around(2, 5, 9));
}

#[test]
fn ranges_stay_right_after_a_write_of_the_same_size() {
    let ranges = |input: &[u8], manifest: &[u8]| {
        handler()
            .get_object_locations_from_stream(input.to_vec())
            .resume(contents(Some(vec![manifest.to_vec()])))
            .into_result()
            .unwrap()
            .unwrap()
    };
    let before = ranges(b"xxOLDyy", b"OLD");
    let out = handler()
        .write_cai(b"xxOLDyy".to_vec(), b"NEW")
        .resume(contents(Some(vec![b"OLD".to_vec()])))
        .into_result()
        .unwrap()
        .unwrap();
    assert_eq!(ranges(&out, b"NEW"), before);
    assert_eq!(before, positions_around(2, 3, 7));
}

#[test]
fn missing_manifest_is_stood_in_for_by_the_marker() {
    let embed = format!("embed {}", LOCATION_MARKER);
    let output = format!("xx{}yyy", LOCATION_MARKER).into_bytes();
    let (requests, locating) = run_search(
        handler().get_object_locations_from_stream(b"xxyyy".to_vec()),
        vec![contents(None), opened(false), edited(), saved(&output)],
    );
    assert_eq!(requests, vec!["read", "open", embed.as_str(), "save", "done"]);
    assert_eq!(LOCATION_MARKER.len(), 38);
    assert_eq!(locating.into_result().unwrap().unwrap(), positions_around(2, 38, 43));

    // a write of the same document asks for the same work
    let (written, _) = run_write(
        handler().write_cai(b"xxyyy".to_vec(), LOCATION_MARKER.as_bytes()),
        vec![contents(None), opened(false), edited(), saved(&output)],
    );
    assert_eq!(written, requests);
}

#[test]
fn unreadable_manifest_is_removed_before_the_marker_is_embedded() {
    let embed = format!("embed {}", LOCATION_MARKER);
    let (requests, locating) = run_search(
        handler().get_object_locations_from_stream(b"xxyyy".to_vec()),
        vec![contents(None), opened(true), edited(), edited(), saved(b"no marker")],
    );
    assert_eq!(requests, vec!["read", "open", "remove", embed.as_str(), "save", "done"]);
    assert_eq!(
        invalid_asset(locating.into_result()),
        "unable to locate embedded C2PA manifest bytes in PDF"
    );
}

#[test]
fn engine_failures_end_a_search() {
    let failed = || "engine".to_string();
    let start = || handler().get_object_locations_from_stream(b"xx".to_vec());
    assert_eq!(start().input_bytes(), b"xx");
    let search = start().resume(PdfReply::Contents(Err(failed())));
    assert_eq!(invalid_asset(search.into_result()), "engine");
    let search = start().resume(contents(None)).resume(PdfReply::Opened(Err(failed())));
    assert_eq!(invalid_asset(search.into_result()), "engine");
    let search = start()
        .resume(contents(None))
        .resume(opened(false))
        .resume(PdfReply::Edited(Err(failed())));
    assert_eq!(invalid_asset(search.into_result()), "engine");
    let search = start()
        .resume(contents(None))
        .resume(opened(false))
        .resume(edited())
        .resume(PdfReply::Saved(Err(failed())));
    assert_eq!(invalid_asset(search.into_result()), "engine");
    assert!(start().resume(edited()).into_result().is_none());
}
