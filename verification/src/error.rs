//! The errors that the PDF handler reports.

use vstd::prelude::*;

verus! {

/// Why an operation on a PDF asset failed.
#[derive(Debug)]
pub enum Error {
    /// The asset, or the document inside it, could not be worked on.
    InvalidAsset(String),
    /// The asset is readable but asks for something that is not supported.
    NotImplemented(String),
    /// The asset carries no manifest store.
    JumbfNotFound,
    /// The manifests of a PDF could not be read.
    PdfReadError,
}

/// The mathematical value of an [`Error`].
pub enum ErrorView {
    InvalidAsset(Seq<char>),
    NotImplemented(Seq<char>),
    JumbfNotFound,
    PdfReadError,
}

impl DeepView for Error {
    type V = ErrorView;

    open spec fn deep_view(&self) -> ErrorView {
        match self {
            Error::InvalidAsset(reason) => ErrorView::InvalidAsset(reason@),
            Error::NotImplemented(reason) => ErrorView::NotImplemented(reason@),
            Error::JumbfNotFound => ErrorView::JumbfNotFound,
            Error::PdfReadError => ErrorView::PdfReadError,
        }
    }
}

/// The mathematical value of a `Result`: that of whichever side it holds.
pub open spec fn result_view<T: DeepView, E: DeepView>(result: Result<T, E>) -> Result<T::V, E::V> {
    match result {
        Ok(value) => Ok(value.deep_view()),
        Err(error) => Err(error.deep_view()),
    }
}

} // verus!
