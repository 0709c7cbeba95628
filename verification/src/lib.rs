//! The verified core of a content-provenance toolkit.
//!
//! Two things are decided here. The first is where the manifest store of a PDF stands
//! and how another is put in its place ([`pdf_io`], [`cai_write`],
//! [`object_locations`]). The second is how far the certificate chains of a manifest
//! can be trusted ([`trust_classification`], [`trust_policy`]).
//!
//! Parsing PDFs, verifying certificate paths and touching files is done outside, by the
//! caller: the library says what is to be done next, and goes on with the answer. Its
//! laws, which relate several functions to one another, stand in [`pdf_laws`],
//! [`trust_laws`] and [`view_laws`].

pub mod bytes;
pub mod cai_write;
pub mod certificate;
pub mod error;
pub mod object_locations;
pub mod pdf;
pub mod pdf_io;
pub mod pdf_laws;
pub mod text;
pub mod trust_classification;
pub mod trust_laws;
pub mod trust_policy;
pub mod view_laws;

pub use error::Error;
pub use pdf_io::{PdfError, PdfIO};
pub use trust_classification::{classify_trust, TrustClassification};
