//! Telling which bytes of a PDF the manifest store takes up, one engine request
//! at a time.

use vstd::prelude::*;
use vstd::utf8::encode_utf8;

use crate::bytes::lemma_deep_bytes;
use crate::error::{Error, ErrorView};
use crate::pdf::{
    ManifestEdit, ManifestEditView, PdfReply, PdfReplyView, PdfRequest, PdfRequestView, Progress,
    ProgressView,
};
use crate::pdf_io::{manifest_range, unique_position, PdfIO};

verus! {

broadcast use lemma_deep_bytes;

/// The text that stands in for a manifest store that is yet to be written.
pub const LOCATION_MARKER: &'static str = "TRUFO_C2PA_PDF_MARKER_9D4B6F11A2C3E57A";

/// The bytes of [`LOCATION_MARKER`].
pub open spec fn location_marker() -> Seq<u8> {
    encode_utf8(LOCATION_MARKER@)
}

/// What a range of an asset's bytes holds.
#[derive(Debug, Clone, Copy, PartialEq, Eq, Structural)]
pub enum HashBlockObjectType {
    /// The manifest store.
    Cai,
    /// Content that is hashed.
    Other,
}

/// A range of an asset's bytes.
#[derive(Debug, Clone, Copy, PartialEq, Eq, Structural)]
pub struct HashObjectPositions {
    /// Where the range starts.
    pub offset: usize,
    /// How many bytes it has.
    pub length: usize,
    /// What it holds.
    pub htype: HashBlockObjectType,
}

/// The mathematical value of [`HashObjectPositions`].
pub struct ObjectRange {
    pub offset: int,
    pub length: int,
    pub htype: HashBlockObjectType,
}

impl DeepView for HashObjectPositions {
    type V = ObjectRange;

    open spec fn deep_view(&self) -> ObjectRange {
        ObjectRange { offset: self.offset as int, length: self.length as int, htype: self.htype }
    }
}

/// The ranges of a file of `file_end` bytes whose manifest store starts at
/// `manifest_pos` and has `manifest_len` bytes: the store, what stands before it
/// and what stands after it.
pub open spec fn ranges_around(manifest_pos: int, manifest_len: int, file_end: int) -> Seq<
    ObjectRange,
> {
    let marker_end = manifest_pos + manifest_len;
    seq![
        ObjectRange {
            offset: manifest_pos,
            length: manifest_len,
            htype: HashBlockObjectType::Cai,
        },
        ObjectRange { offset: 0, length: manifest_pos, htype: HashBlockObjectType::Other },
        ObjectRange {
            offset: marker_end,
            length: if marker_end <= file_end {
                file_end - marker_end
            } else {
                0
            },
            htype: HashBlockObjectType::Other,
        },
    ]
}

/// The ranges of a file around the manifest store at `manifest_pos`.
pub fn positions_around(manifest_pos: usize, manifest_len: usize, file_end: usize) -> (positions:
    Vec<HashObjectPositions>)
    requires
        manifest_pos + manifest_len <= usize::MAX,
    ensures
        positions.deep_view() == ranges_around(
            manifest_pos as int,
            manifest_len as int,
            file_end as int,
        ),
        positions@.len() == 3,
        positions@[0].htype is Cai,
        positions@[0].offset == manifest_pos,
        positions@[0].length == manifest_len,
        positions@[1].htype is Other,
        positions@[1].offset == 0,
        positions@[1].length == manifest_pos,
        positions@[2].htype is Other,
        positions@[2].offset == manifest_pos + manifest_len,
        manifest_pos + manifest_len <= file_end ==> positions@[2].offset + positions@[2].length
            == file_end,
        manifest_pos + manifest_len > file_end ==> positions@[2].length == 0,
{
    let marker_end: usize = manifest_pos + manifest_len;
    let positions: Vec<HashObjectPositions> = vec![
        HashObjectPositions {
            offset: manifest_pos,
            length: manifest_len,
            htype: HashBlockObjectType::Cai,
        },
        HashObjectPositions {
            offset: 0,
            length: manifest_pos,
            htype: HashBlockObjectType::Other,
        },
        HashObjectPositions {
            offset: marker_end,
            length: file_end.saturating_sub(marker_end),
            htype: HashBlockObjectType::Other,
        },
    ];
    assert(positions.deep_view() =~= ranges_around(
        manifest_pos as int,
        manifest_len as int,
        file_end as int,
    ));
    positions
}

/// The mathematical value of an [`ObjectLocating`].
pub struct ObjectLocatingView {
    pub input: Seq<u8>,
    pub step: ProgressView<Seq<ObjectRange>>,
}

/// A search that has asked nothing yet.
pub open spec fn locating_start(input: Seq<u8>) -> ObjectLocatingView {
    ObjectLocatingView { input, step: ProgressView::Ask(PdfRequestView::ReadContents) }
}

/// What a search does next. A reply that does not answer the pending request is
/// ignored.
///
/// Where the input has no manifest, the marker is embedded in its place: the
/// saved document shows where a manifest store will come to stand.
pub open spec fn locating_next(
    locating: ObjectLocatingView,
    reply: PdfReplyView,
) -> ObjectLocatingView {
    let embed_marker = ProgressView::Ask(
        PdfRequestView::Edit(ManifestEditView::Embed(location_marker())),
    );
    let step = match (locating.step, reply) {
        (ProgressView::Ask(PdfRequestView::ReadContents), PdfReplyView::Contents(contents)) => {
            match manifest_range(locating.input, contents) {
                Err(error) => ProgressView::Done(Err(error)),
                Ok(Some((start, length))) => ProgressView::Done(
                    Ok(ranges_around(start, length, locating.input.len() as int)),
                ),
                Ok(None) => ProgressView::Ask(PdfRequestView::OpenForEdit),
            }
        },
        (ProgressView::Ask(PdfRequestView::OpenForEdit), PdfReplyView::Opened(opened)) => {
            match opened {
                Err(reason) => ProgressView::Done(Err(ErrorView::InvalidAsset(reason))),
                Ok(true) => ProgressView::Ask(PdfRequestView::Edit(ManifestEditView::Remove)),
                Ok(false) => embed_marker,
            }
        },
        (ProgressView::Ask(PdfRequestView::Edit(edit)), PdfReplyView::Edited(edited)) => {
            match edited {
                Err(reason) => ProgressView::Done(Err(ErrorView::InvalidAsset(reason))),
                Ok(_) => if edit is Remove {
                    embed_marker
                } else {
                    ProgressView::Ask(PdfRequestView::Save)
                },
            }
        },
        (ProgressView::Ask(PdfRequestView::Save), PdfReplyView::Saved(saved)) => {
            match saved {
                Err(reason) => ProgressView::Done(Err(ErrorView::InvalidAsset(reason))),
                Ok(bytes) => match unique_position(bytes, location_marker()) {
                    Err(error) => ProgressView::Done(Err(error)),
                    Ok(start) => ProgressView::Done(
                        Ok(
                            ranges_around(
                                start,
                                location_marker().len() as int,
                                bytes.len() as int,
                            ),
                        ),
                    ),
                },
            }
        },
        _ => locating.step,
    };
    ObjectLocatingView { step, ..locating }
}

/// Whatever a search embeds is the marker, and it replaces nothing.
pub open spec fn locating_consistent(locating: ObjectLocatingView) -> bool {
    match locating.step {
        ProgressView::Ask(PdfRequestView::Edit(ManifestEditView::Replace(_))) => false,
        ProgressView::Ask(PdfRequestView::Edit(ManifestEditView::Embed(bytes))) => bytes
            == location_marker(),
        _ => true,
    }
}

/// A search for the ranges of a PDF that is under way.
pub struct ObjectLocating {
    input_bytes: Vec<u8>,
    step: Progress<Vec<HashObjectPositions>>,
}

impl DeepView for ObjectLocating {
    type V = ObjectLocatingView;

    closed spec fn deep_view(&self) -> ObjectLocatingView {
        ObjectLocatingView { input: self.input_bytes@, step: self.step.deep_view() }
    }
}

impl ObjectLocating {
    #[verifier::type_invariant]
    spec fn consistent(self) -> bool {
        locating_consistent(self.deep_view())
    }

    /// Starts to look for the ranges of the PDF `input_bytes`.
    pub fn begin(input_bytes: Vec<u8>) -> (locating: ObjectLocating)
        ensures
            locating.deep_view() == locating_start(input_bytes@),
    {
        ObjectLocating { input_bytes, step: Progress::Ask(PdfRequest::ReadContents) }
    }

    /// What the search waits for, or how it ended.
    pub fn step(&self) -> (step: &Progress<Vec<HashObjectPositions>>)
        ensures
            step.deep_view() == self.deep_view().step,
    {
        &self.step
    }

    /// The bytes that the engine is to parse.
    pub fn input_bytes(&self) -> (input_bytes: &Vec<u8>)
        ensures
            input_bytes@ == self.deep_view().input,
    {
        &self.input_bytes
    }

    /// The request to embed the marker.
    fn embed_marker() -> (step: Progress<Vec<HashObjectPositions>>)
        ensures
            step.deep_view() == ProgressView::<Seq<ObjectRange>>::Ask(
                PdfRequestView::Edit(ManifestEditView::Embed(location_marker())),
            ),
    {
        let marker: Vec<u8> = vstd::slice::slice_to_vec(LOCATION_MARKER.as_bytes());
        Progress::Ask(PdfRequest::Edit(ManifestEdit::Embed(marker)))
    }

    /// Goes on with what the engine answered.
    pub fn resume(self, reply: PdfReply) -> (locating: ObjectLocating)
        ensures
            locating.deep_view() == locating_next(self.deep_view(), reply.deep_view()),
    {
        proof {
            use_type_invariant(&self);
        }
        let input_bytes: Vec<u8> = self.input_bytes;
        let step: Progress<Vec<HashObjectPositions>> = match (self.step, reply) {
            (Progress::Ask(PdfRequest::ReadContents), PdfReply::Contents(contents)) => {
                let handler: PdfIO = PdfIO {  };
                match handler.locate_manifest_range_in_bytes(input_bytes.as_slice(), contents) {
                    Err(error) => Progress::Done(Err(error)),
                    Ok(Some((start, length))) => Progress::Done(
                        Ok(positions_around(start, length, input_bytes.len())),
                    ),
                    Ok(None) => Progress::Ask(PdfRequest::OpenForEdit),
                }
            },
            (Progress::Ask(PdfRequest::OpenForEdit), PdfReply::Opened(opened)) => {
                match opened {
                    Err(reason) => Progress::Done(Err(Error::InvalidAsset(reason))),
                    Ok(has_manifest) => {
                        if has_manifest {
                            Progress::Ask(PdfRequest::Edit(ManifestEdit::Remove))
                        } else {
                            Self::embed_marker()
                        }
                    },
                }
            },
            (Progress::Ask(PdfRequest::Edit(edit)), PdfReply::Edited(edited)) => {
                match edited {
                    Err(reason) => Progress::Done(Err(Error::InvalidAsset(reason))),
                    Ok(_) => match edit {
                        ManifestEdit::Remove => Self::embed_marker(),
                        _ => Progress::Ask(PdfRequest::Save),
                    },
                }
            },
            (Progress::Ask(PdfRequest::Save), PdfReply::Saved(saved)) => {
                match saved {
                    Err(reason) => Progress::Done(Err(Error::InvalidAsset(reason))),
                    Ok(bytes) => {
                        let marker: &[u8] = LOCATION_MARKER.as_bytes();
                        match PdfIO::find_unique_subslice(bytes.as_slice(), marker) {
                            Err(error) => Progress::Done(Err(error)),
                            Ok(start) => Progress::Done(
                                Ok(positions_around(start, marker.len(), bytes.len())),
                            ),
                        }
                    },
                }
            },
            (step, _) => step,
        };
        ObjectLocating { input_bytes, step }
    }

    /// The ranges, or why the search failed; `None` while it still waits for the
    /// engine.
    pub fn into_result(self) -> (result: Option<Result<Vec<HashObjectPositions>, Error>>)
        ensures
            match result {
                Some(outcome) => self.deep_view().step == ProgressView::Done(
                    crate::error::result_view(outcome),
                ),
                None => self.deep_view().step is Ask,
            },
    {
        match self.step {
            Progress::Done(outcome) => Some(outcome),
            Progress::Ask(_) => None,
        }
    }
}

} // verus!
