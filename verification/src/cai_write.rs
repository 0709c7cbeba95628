//! Writing a manifest store into a PDF, one engine request at a time.

use vstd::prelude::*;

use crate::bytes::{lemma_deep_bytes, overwrite, overwritten};
use crate::error::{Error, ErrorView};
use crate::pdf::{
    ManifestEdit, ManifestEditView, PdfReply, PdfReplyView, PdfRequest, PdfRequestView, Progress,
    ProgressView,
};
use crate::pdf_io::{manifest_range, PdfIO};

verus! {

broadcast use lemma_deep_bytes;

/// The mathematical value of a [`CaiWrite`].
pub struct CaiWriteView {
    pub input: Seq<u8>,
    pub store: Seq<u8>,
    pub step: ProgressView<Seq<u8>>,
}

/// The edit that puts `store` in the place of whatever manifest a document has:
/// an empty store means that no manifest is to be left.
pub open spec fn edit_for(has_manifest: bool, store: Seq<u8>) -> Option<ManifestEditView> {
    if store.len() == 0 {
        if has_manifest {
            Some(ManifestEditView::Remove)
        } else {
            None
        }
    } else if has_manifest {
        Some(ManifestEditView::Replace(store))
    } else {
        Some(ManifestEditView::Embed(store))
    }
}

/// A write that has asked nothing yet. Only a store that is to be embedded can
/// be patched in place, so only it has the input's manifest looked up.
pub open spec fn write_start(input: Seq<u8>, store: Seq<u8>) -> CaiWriteView {
    CaiWriteView {
        input,
        store,
        step: if store.len() == 0 {
            ProgressView::Ask(PdfRequestView::OpenForEdit)
        } else {
            ProgressView::Ask(PdfRequestView::ReadContents)
        },
    }
}

/// What a write does next. A reply that does not answer the pending request is
/// ignored.
pub open spec fn write_next(write: CaiWriteView, reply: PdfReplyView) -> CaiWriteView {
    let step = match (write.step, reply) {
        (ProgressView::Ask(PdfRequestView::ReadContents), PdfReplyView::Contents(contents)) => {
            match manifest_range(write.input, contents) {
                Err(error) => ProgressView::Done(Err(error)),
                Ok(Some((start, length))) => if length == write.store.len() {
                    ProgressView::Done(Ok(overwritten(write.input, start, write.store)))
                } else {
                    ProgressView::Ask(PdfRequestView::OpenForEdit)
                },
                Ok(None) => ProgressView::Ask(PdfRequestView::OpenForEdit),
            }
        },
        (ProgressView::Ask(PdfRequestView::OpenForEdit), PdfReplyView::Opened(opened)) => {
            match opened {
                Err(reason) => ProgressView::Done(Err(ErrorView::InvalidAsset(reason))),
                Ok(has_manifest) => match edit_for(has_manifest, write.store) {
                    Some(edit) => ProgressView::Ask(PdfRequestView::Edit(edit)),
                    None => ProgressView::Ask(PdfRequestView::Save),
                },
            }
        },
        (ProgressView::Ask(PdfRequestView::Edit(_)), PdfReplyView::Edited(edited)) => {
            match edited {
                Err(reason) => ProgressView::Done(Err(ErrorView::InvalidAsset(reason))),
                Ok(_) => ProgressView::Ask(PdfRequestView::Save),
            }
        },
        (ProgressView::Ask(PdfRequestView::Save), PdfReplyView::Saved(saved)) => {
            match saved {
                Err(reason) => ProgressView::Done(Err(ErrorView::InvalidAsset(reason))),
                Ok(bytes) => ProgressView::Done(Ok(bytes)),
            }
        },
        _ => write.step,
    };
    CaiWriteView { step, ..write }
}

/// The pending request of a write fits its store: a manifest is looked up,
/// replaced or embedded only for a store that has bytes, with exactly those
/// bytes, and removed only for an empty store.
pub open spec fn write_consistent(write: CaiWriteView) -> bool {
    match write.step {
        ProgressView::Ask(PdfRequestView::ReadContents) => write.store.len() > 0,
        ProgressView::Ask(PdfRequestView::Edit(ManifestEditView::Remove)) => write.store.len()
            == 0,
        ProgressView::Ask(PdfRequestView::Edit(ManifestEditView::Replace(bytes))) => {
            write.store.len() > 0 && bytes == write.store
        },
        ProgressView::Ask(PdfRequestView::Edit(ManifestEditView::Embed(bytes))) => {
            write.store.len() > 0 && bytes == write.store
        },
        _ => true,
    }
}

/// A write of a manifest store into a PDF that is under way.
pub struct CaiWrite {
    input_bytes: Vec<u8>,
    store_bytes: Vec<u8>,
    step: Progress<Vec<u8>>,
}

impl DeepView for CaiWrite {
    type V = CaiWriteView;

    closed spec fn deep_view(&self) -> CaiWriteView {
        CaiWriteView {
            input: self.input_bytes@,
            store: self.store_bytes@,
            step: self.step.deep_view(),
        }
    }
}

impl CaiWrite {
    #[verifier::type_invariant]
    spec fn consistent(self) -> bool {
        write_consistent(self.deep_view())
    }

    /// Starts to write `store_bytes` into the PDF `input_bytes`; an empty store
    /// takes the manifest out.
    pub fn begin(input_bytes: Vec<u8>, store_bytes: &[u8]) -> (write: CaiWrite)
        ensures
            write.deep_view() == write_start(input_bytes@, store_bytes@),
    {
        let step: Progress<Vec<u8>> = if store_bytes.is_empty() {
            Progress::Ask(PdfRequest::OpenForEdit)
        } else {
            Progress::Ask(PdfRequest::ReadContents)
        };
        CaiWrite { input_bytes, store_bytes: vstd::slice::slice_to_vec(store_bytes), step }
    }

    /// What the write waits for, or how it ended.
    pub fn step(&self) -> (step: &Progress<Vec<u8>>)
        ensures
            step.deep_view() == self.deep_view().step,
    {
        &self.step
    }

    /// The bytes that the engine is to parse.
    pub fn input_bytes(&self) -> (input_bytes: &Vec<u8>)
        ensures
            input_bytes@ == self.deep_view().input,
    {
        &self.input_bytes
    }

    /// Goes on with what the engine answered.
    pub fn resume(self, reply: PdfReply) -> (write: CaiWrite)
        ensures
            write.deep_view() == write_next(self.deep_view(), reply.deep_view()),
    {
        proof {
            use_type_invariant(&self);
        }
        let input_bytes: Vec<u8> = self.input_bytes;
        let store_bytes: Vec<u8> = self.store_bytes;
        let step: Progress<Vec<u8>> = match (self.step, reply) {
            (Progress::Ask(PdfRequest::ReadContents), PdfReply::Contents(contents)) => {
                let handler: PdfIO = PdfIO {  };
                match handler.locate_manifest_range_in_bytes(input_bytes.as_slice(), contents) {
                    Err(error) => Progress::Done(Err(error)),
                    Ok(Some((start, length))) => {
                        if length == store_bytes.len() {
                            let patched: Vec<u8> = overwrite(
                                input_bytes.as_slice(),
                                start,
                                store_bytes.as_slice(),
                            );
                            Progress::Done(Ok(patched))
                        } else {
                            Progress::Ask(PdfRequest::OpenForEdit)
                        }
                    },
                    Ok(None) => Progress::Ask(PdfRequest::OpenForEdit),
                }
            },
            (Progress::Ask(PdfRequest::OpenForEdit), PdfReply::Opened(opened)) => {
                match opened {
                    Err(reason) => Progress::Done(Err(Error::InvalidAsset(reason))),
                    Ok(has_manifest) => {
                        if store_bytes.is_empty() {
                            if has_manifest {
                                Progress::Ask(PdfRequest::Edit(ManifestEdit::Remove))
                            } else {
                                Progress::Ask(PdfRequest::Save)
                            }
                        } else if has_manifest {
                            let bytes: Vec<u8> = vstd::slice::slice_to_vec(store_bytes.as_slice());
                            Progress::Ask(PdfRequest::Edit(ManifestEdit::Replace(bytes)))
                        } else {
                            let bytes: Vec<u8> = vstd::slice::slice_to_vec(store_bytes.as_slice());
                            Progress::Ask(PdfRequest::Edit(ManifestEdit::Embed(bytes)))
                        }
                    },
                }
            },
            (Progress::Ask(PdfRequest::Edit(_)), PdfReply::Edited(edited)) => {
                match edited {
                    Err(reason) => Progress::Done(Err(Error::InvalidAsset(reason))),
                    Ok(_) => Progress::Ask(PdfRequest::Save),
                }
            },
            (Progress::Ask(PdfRequest::Save), PdfReply::Saved(saved)) => {
                match saved {
                    Err(reason) => Progress::Done(Err(Error::InvalidAsset(reason))),
                    Ok(bytes) => Progress::Done(Ok(bytes)),
                }
            },
            (step, _) => step,
        };
        CaiWrite { input_bytes, store_bytes, step }
    }

    /// The bytes to put out, or why the write failed; `None` while it still waits
    /// for the engine.
    pub fn into_result(self) -> (result: Option<Result<Vec<u8>, Error>>)
        ensures
            match result {
                Some(outcome) => self.deep_view().step == ProgressView::Done(
                    crate::error::result_view(outcome),
                ),
                None => self.deep_view().step is Ask,
            },
    {
        match self.step {
            Progress::Done(outcome) => Some(outcome),
            Progress::Ask(_) => None,
        }
    }
}

} // verus!
