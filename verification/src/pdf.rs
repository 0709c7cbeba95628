//! What the PDF handler knows of a document, and what it asks of one.
//!
//! Parsing, editing and serialising PDF objects is the business of a document
//! engine. The handler sees the engine only through the values defined here.

use vstd::prelude::*;

use crate::error::{result_view, Error, ErrorView};

verus! {

/// What a document engine reads out of one PDF.
pub struct PdfContents {
    /// The embedded manifests, `None` if the document has none, or the text of
    /// the failure to read them.
    pub manifests: Result<Option<Vec<Vec<u8>>>, String>,
    /// The document's XMP packet.
    pub xmp: Option<String>,
}

/// The mathematical value of [`PdfContents`].
pub struct PdfContentsView {
    pub manifests: Result<Option<Seq<Seq<u8>>>, Seq<char>>,
    pub xmp: Option<Seq<char>>,
}

impl DeepView for PdfContents {
    type V = PdfContentsView;

    open spec fn deep_view(&self) -> PdfContentsView {
        PdfContentsView {
            manifests: result_view(self.manifests),
            xmp: self.xmp.deep_view(),
        }
    }
}

/// A change to the manifest that a document embeds.
pub enum ManifestEdit {
    /// Take the manifest out.
    Remove,
    /// Put these bytes in the place of the manifest that is there.
    Replace(Vec<u8>),
    /// Add these bytes as the manifest of a document that has none.
    Embed(Vec<u8>),
}

/// The mathematical value of a [`ManifestEdit`].
pub enum ManifestEditView {
    Remove,
    Replace(Seq<u8>),
    Embed(Seq<u8>),
}

impl DeepView for ManifestEdit {
    type V = ManifestEditView;

    open spec fn deep_view(&self) -> ManifestEditView {
        match self {
            ManifestEdit::Remove => ManifestEditView::Remove,
            ManifestEdit::Replace(bytes) => ManifestEditView::Replace(bytes@),
            ManifestEdit::Embed(bytes) => ManifestEditView::Embed(bytes@),
        }
    }
}

/// Work that the handler asks of the document engine.
pub enum PdfRequest {
    /// Parse the input bytes and tell what can be read there.
    ReadContents,
    /// Parse the input bytes afresh, keep the result as the working document,
    /// and tell whether it has a manifest.
    OpenForEdit,
    /// Apply an edit to the working document.
    Edit(ManifestEdit),
    /// Serialise the working document.
    Save,
}

/// The mathematical value of a [`PdfRequest`].
pub enum PdfRequestView {
    ReadContents,
    OpenForEdit,
    Edit(ManifestEditView),
    Save,
}

impl DeepView for PdfRequest {
    type V = PdfRequestView;

    open spec fn deep_view(&self) -> PdfRequestView {
        match self {
            PdfRequest::ReadContents => PdfRequestView::ReadContents,
            PdfRequest::OpenForEdit => PdfRequestView::OpenForEdit,
            PdfRequest::Edit(edit) => PdfRequestView::Edit(edit.deep_view()),
            PdfRequest::Save => PdfRequestView::Save,
        }
    }
}

/// What the document engine answers to a [`PdfRequest`]. A failure carries its
/// text.
pub enum PdfReply {
    /// To [`PdfRequest::ReadContents`].
    Contents(Result<PdfContents, String>),
    /// To [`PdfRequest::OpenForEdit`]: whether the document has a manifest.
    Opened(Result<bool, String>),
    /// To [`PdfRequest::Edit`].
    Edited(Result<(), String>),
    /// To [`PdfRequest::Save`]: the serialised document.
    Saved(Result<Vec<u8>, String>),
}

/// The mathematical value of a [`PdfReply`].
pub enum PdfReplyView {
    Contents(Result<PdfContentsView, Seq<char>>),
    Opened(Result<bool, Seq<char>>),
    Edited(Result<(), Seq<char>>),
    Saved(Result<Seq<u8>, Seq<char>>),
}

impl DeepView for PdfReply {
    type V = PdfReplyView;

    open spec fn deep_view(&self) -> PdfReplyView {
        match self {
            PdfReply::Contents(reply) => PdfReplyView::Contents(result_view(*reply)),
            PdfReply::Opened(reply) => PdfReplyView::Opened(result_view(*reply)),
            PdfReply::Edited(reply) => PdfReplyView::Edited(result_view(*reply)),
            PdfReply::Saved(reply) => PdfReplyView::Saved(result_view(*reply)),
        }
    }
}

/// Where a running operation stands: waiting for the engine, or finished.
pub enum Progress<T> {
    Ask(PdfRequest),
    Done(Result<T, Error>),
}

/// The mathematical value of a [`Progress`].
pub enum ProgressView<V> {
    Ask(PdfRequestView),
    Done(Result<V, ErrorView>),
}

impl<T: DeepView> DeepView for Progress<T> {
    type V = ProgressView<T::V>;

    open spec fn deep_view(&self) -> ProgressView<T::V> {
        match self {
            Progress::Ask(request) => ProgressView::Ask(request.deep_view()),
            Progress::Done(result) => ProgressView::Done(result_view(*result)),
        }
    }
}

} // verus!
