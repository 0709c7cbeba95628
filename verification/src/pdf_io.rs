//! Reading and placing manifest stores in PDF assets.

use vstd::prelude::*;

use crate::bytes::{find_from, lemma_deep_bytes, occurs_at};
use crate::cai_write::{write_start, CaiWrite};
use crate::error::{result_view, Error, ErrorView};
use crate::object_locations::{locating_start, ObjectLocating};
use crate::pdf::{PdfContents, PdfContentsView};

verus! {

/// The file extension of PDF assets.
pub const PDF_EXTENSION: &'static str = "pdf";

/// The media type of PDF assets.
pub const PDF_MEDIA_TYPE: &'static str = "application/pdf";

/// What the text of a signature error starts with.
pub const INVALID_SIGNATURE: &'static str = "invalid file signature: ";

/// The needle of a search was empty.
pub const EMPTY_MANIFEST: &'static str = "embedded C2PA manifest in PDF is empty";

/// The needle of a search is nowhere in the asset.
pub const MANIFEST_NOT_LOCATED: &'static str = "unable to locate embedded C2PA manifest bytes in PDF";

/// The needle of a search is in the asset more than once.
pub const MANIFEST_AMBIGUOUS: &'static str = "embedded C2PA manifest bytes appear multiple times in PDF";

/// A document to be read has no manifest or several.
pub const ONE_MANIFEST_TO_READ: &'static str = "c2pa-rs only supports reading PDFs with one manifest";

/// A document to be searched has several manifests.
pub const ONE_MANIFEST: &'static str = "c2pa-rs only supports PDFs with one manifest";

/// `needle` stands in `haystack` at two places or more.
pub open spec fn occurs_twice(haystack: Seq<u8>, needle: Seq<u8>) -> bool {
    exists|i: int, j: int|
        i < j && #[trigger] occurs_at(haystack, needle, i) && #[trigger] occurs_at(
            haystack,
            needle,
            j,
        )
}

/// Where the only occurrence of `needle` in `haystack` starts, or why there is
/// no such place.
pub open spec fn unique_position(haystack: Seq<u8>, needle: Seq<u8>) -> Result<int, ErrorView> {
    if needle.len() == 0 {
        Err(ErrorView::InvalidAsset(EMPTY_MANIFEST@))
    } else if !exists|i: int| occurs_at(haystack, needle, i) {
        Err(ErrorView::InvalidAsset(MANIFEST_NOT_LOCATED@))
    } else if occurs_twice(haystack, needle) {
        Err(ErrorView::InvalidAsset(MANIFEST_AMBIGUOUS@))
    } else {
        Ok(choose|i: int| occurs_at(haystack, needle, i))
    }
}

/// The manifest store of a document: its one manifest, or why there is none.
pub open spec fn single_manifest(pdf: PdfContentsView) -> Result<Seq<u8>, ErrorView> {
    match pdf.manifests {
        Err(_) => Err(ErrorView::PdfReadError),
        Ok(None) => Err(ErrorView::JumbfNotFound),
        Ok(Some(manifests)) => if manifests.len() == 1 {
            Ok(manifests[0])
        } else {
            Err(ErrorView::NotImplemented(ONE_MANIFEST_TO_READ@))
        },
    }
}

/// The start and the length of the manifest that stands in `input`, given what
/// was read there; `None` if the document has no manifest.
pub open spec fn manifest_range(
    input: Seq<u8>,
    contents: Result<PdfContentsView, Seq<char>>,
) -> Result<Option<(int, int)>, ErrorView> {
    match contents {
        Err(reason) => Err(ErrorView::InvalidAsset(reason)),
        Ok(pdf) => match pdf.manifests {
            Err(reason) => Err(ErrorView::InvalidAsset(reason)),
            Ok(None) => Ok(None),
            Ok(Some(manifests)) => if manifests.len() == 1 {
                match unique_position(input, manifests[0]) {
                    Ok(start) => Ok(Some((start, manifests[0].len() as int))),
                    Err(error) => Err(error),
                }
            } else {
                Err(ErrorView::NotImplemented(ONE_MANIFEST@))
            },
        },
    }
}

/// The mathematical value of a located range.
pub open spec fn range_view(
    range: Result<Option<(usize, usize)>, Error>,
) -> Result<Option<(int, int)>, ErrorView> {
    match range {
        Ok(Some((start, length))) => Ok(Some((start as int, length as int))),
        Ok(None) => Ok(None),
        Err(error) => Err(error.deep_view()),
    }
}

/// Handles manifest stores in PDF assets.
pub struct PdfIO {}

impl PdfIO {
    /// A handler for PDF assets, whichever of the supported names they go by.
    pub fn new(_asset_type: &str) -> (handler: PdfIO)
        ensures
            handler == (PdfIO {  }),
    {
        PdfIO {  }
    }

    /// The file extension and the media type that the handler serves.
    pub fn supported_types(&self) -> (types: Vec<&'static str>)
        ensures
            types.deep_view() == seq![PDF_EXTENSION@, PDF_MEDIA_TYPE@],
            types@.len() == 2,
            types@[0]@ == "pdf"@,
            types@[1]@ == "application/pdf"@,
    {
        let types: Vec<&'static str> = vec![PDF_EXTENSION, PDF_MEDIA_TYPE];
        assert(types.deep_view() =~= seq![PDF_EXTENSION@, PDF_MEDIA_TYPE@]);
        types
    }

    /// Where the only occurrence of `needle` in `haystack` starts. Overlapping
    /// occurrences count as several.
    pub fn find_unique_subslice(haystack: &[u8], needle: &[u8]) -> (found: Result<usize, Error>)
        ensures
            match found {
                Ok(at) => {
                    &&& unique_position(haystack@, needle@) == Ok::<int, ErrorView>(at as int)
                    &&& occurs_at(haystack@, needle@, at as int)
                    &&& forall|i: int| occurs_at(haystack@, needle@, i) ==> i == at
                },
                Err(error) => unique_position(haystack@, needle@) == Err::<int, ErrorView>(
                    error.deep_view(),
                ),
            },
    {
        if needle.is_empty() {
            return Err(Error::InvalidAsset(EMPTY_MANIFEST.to_string()));
        }
        let first: usize = match find_from(haystack, needle, 0) {
            Some(at) => at,
            None => {
                return Err(Error::InvalidAsset(MANIFEST_NOT_LOCATED.to_string()));
            },
        };
        assert(first < haystack.len());
        match find_from(haystack, needle, first + 1) {
            Some(second) => {
                assert(occurs_at(haystack@, needle@, first as int));
                assert(occurs_at(haystack@, needle@, second as int));
                Err(Error::InvalidAsset(MANIFEST_AMBIGUOUS.to_string()))
            },
            None => {
                assert forall|i: int| occurs_at(haystack@, needle@, i) implies i == first by {
                    assert(!(0 <= i < first));
                    assert(!(first + 1 <= i));
                }
                Ok(first)
            },
        }
    }

    /// The manifest store of a document.
    pub fn read_manifest_bytes(&self, pdf: PdfContents) -> (store: Result<Vec<u8>, Error>)
        ensures
            result_view(store) == single_manifest(pdf.deep_view()),
            match pdf.manifests {
                Ok(Some(manifests)) if manifests@.len() == 1 => store matches Ok(bytes) && bytes@
                    == manifests@[0]@,
                Ok(Some(_)) => store matches Err(error) && error is NotImplemented,
                Ok(None) => store matches Err(error) && error is JumbfNotFound,
                Err(_) => store matches Err(error) && error is PdfReadError,
            },
    {
        let manifests: Vec<Vec<u8>> = match pdf.manifests {
            Err(_) => {
                return Err(Error::PdfReadError);
            },
            Ok(None) => {
                return Err(Error::JumbfNotFound);
            },
            Ok(Some(manifests)) => manifests,
        };
        if manifests.len() == 1 {
            let mut manifests = manifests;
            Ok(manifests.swap_remove(0))
        } else {
            Err(Error::NotImplemented(ONE_MANIFEST_TO_READ.to_string()))
        }
    }

    /// The XMP packet of a document.
    pub fn read_xmp_from_pdf(&self, pdf: PdfContents) -> (xmp: Option<String>)
        ensures
            xmp.deep_view() == pdf.deep_view().xmp,
            xmp == pdf.xmp,
    {
        pdf.xmp
    }

    /// The manifest store of an asset, given what was read of it.
    pub fn read_cai(&self, contents: Result<PdfContents, String>) -> (store: Result<Vec<u8>, Error>)
        ensures
            result_view(store) == match result_view(contents) {
                Err(reason) => Err(ErrorView::InvalidAsset(reason)),
                Ok(pdf) => single_manifest(pdf),
            },
    {
        match contents {
            Err(reason) => Err(Error::InvalidAsset(reason)),
            Ok(pdf) => self.read_manifest_bytes(pdf),
        }
    }

    /// The XMP packet of an asset, given what was read of it: an asset that could
    /// not be read has none.
    pub fn read_xmp(&self, contents: Result<PdfContents, String>) -> (xmp: Option<String>)
        ensures
            xmp.deep_view() == match result_view(contents) {
                Err(_) => None,
                Ok(pdf) => pdf.xmp,
            },
            match contents {
                Err(_) => xmp is None,
                Ok(pdf) => xmp == pdf.xmp,
            },
    {
        match contents {
            Err(_) => None,
            Ok(pdf) => self.read_xmp_from_pdf(pdf),
        }
    }

    /// The start and the length of the manifest that stands in `input_bytes`,
    /// given what was read there; `None` if the document has no manifest.
    pub fn locate_manifest_range_in_bytes(
        &self,
        input_bytes: &[u8],
        contents: Result<PdfContents, String>,
    ) -> (range: Result<Option<(usize, usize)>, Error>)
        ensures
            range_view(range) == manifest_range(input_bytes@, result_view(contents)),
            range matches Ok(Some((start, length))) ==> start + length <= input_bytes.len(),
            (range matches Ok(found) && found is None) <==> (contents matches Ok(pdf)
                && pdf.manifests matches Ok(manifests) && manifests is None),
            range matches Ok(Some((start, length))) ==> (contents matches Ok(pdf)
                && pdf.manifests matches Ok(Some(manifests)) && manifests@.len() == 1
                && manifests@[0]@.len() == length && input_bytes@.subrange(
                start as int,
                start + length,
            ) == manifests@[0]@),
    {
        let pdf: PdfContents = match contents {
            Err(reason) => {
                return Err(Error::InvalidAsset(reason));
            },
            Ok(pdf) => pdf,
        };
        match pdf.manifests {
            Err(reason) => Err(Error::InvalidAsset(reason)),
            Ok(None) => Ok(None),
            Ok(Some(manifests)) => {
                if manifests.len() != 1 {
                    return Err(Error::NotImplemented(ONE_MANIFEST.to_string()));
                }
                let manifest: &Vec<u8> = &manifests[0];
                proof {
                    lemma_deep_bytes(*manifest);
                }
                match Self::find_unique_subslice(input_bytes, manifest.as_slice()) {
                    Ok(start) => Ok(Some((start, manifest.len()))),
                    Err(error) => Err(error),
                }
            },
        }
    }

    /// Starts to write a manifest store into a PDF. A store of the size of the
    /// manifest that is there is patched in place; any other has the document
    /// edited and saved anew. An empty store takes the manifest out.
    pub fn write_cai(&self, input_bytes: Vec<u8>, store_bytes: &[u8]) -> (write: CaiWrite)
        ensures
            write.deep_view() == write_start(input_bytes@, store_bytes@),
    {
        CaiWrite::begin(input_bytes, store_bytes)
    }

    /// Starts to take the manifest store out of a PDF.
    pub fn remove_cai_store_from_stream(&self, input_bytes: Vec<u8>) -> (write: CaiWrite)
        ensures
            write.deep_view() == write_start(input_bytes@, Seq::empty()),
    {
        let store_bytes: Vec<u8> = Vec::new();
        self.write_cai(input_bytes, store_bytes.as_slice())
    }

    /// Starts to tell which bytes of a PDF the manifest store takes up, or will
    /// take up once it is written.
    pub fn get_object_locations_from_stream(&self, input_bytes: Vec<u8>) -> (locating:
        ObjectLocating)
        ensures
            locating.deep_view() == locating_start(input_bytes@),
    {
        ObjectLocating::begin(input_bytes)
    }

    /// The manifest store as it is embedded: a PDF takes it as it is.
    pub fn compose_manifest(&self, manifest_data: &[u8], _format: &str) -> (composed: Result<
        Vec<u8>,
        Error,
    >)
        ensures
            composed matches Ok(bytes) && bytes@ == manifest_data@,
    {
        Ok(vstd::slice::slice_to_vec(manifest_data))
    }
}

/// Why a file is not taken for a PDF.
#[derive(Debug)]
pub enum PdfError {
    /// The file does not start as a PDF does.
    InvalidFileSignature { reason: String },
}

impl PdfError {
    /// The error's text for people.
    pub fn message(&self) -> (message: String)
        ensures
            match self {
                PdfError::InvalidFileSignature { reason } => message@
                    == INVALID_SIGNATURE@ + reason@,
            },
            match self {
                PdfError::InvalidFileSignature { reason } => message@
                    == "invalid file signature: "@ + reason@,
            },
    {
        match self {
            PdfError::InvalidFileSignature { reason } => {
                INVALID_SIGNATURE.to_string().concat(reason.as_str())
            },
        }
    }
}

} // verus!
