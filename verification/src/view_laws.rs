//! Laws of the mathematical values: they show all that the values hold.

use vstd::prelude::*;

use crate::bytes::lemma_deep_bytes;
use crate::certificate::{CertificateIdentity, Extension};
use crate::error::{result_view, Error, ErrorView};
use crate::object_locations::HashObjectPositions;
use crate::pdf::{
    ManifestEdit, ManifestEditView, PdfContents, PdfReply, PdfReplyView, PdfRequest,
    PdfRequestView, Progress, ProgressView,
};
use crate::pdf_io::range_view;
use crate::trust_classification::{
    CertDn, ChainEntry, IdentityTrustEntry, TrustClassification, TrustResult,
};
use crate::trust_policy::{CertificateTrustPolicy, ChainCheck};

verus! {

broadcast use lemma_deep_bytes;

/// The value of a text that may be missing is its characters, if it is there.
pub open spec fn shows_text(text: Option<String>, shown: Option<Seq<char>>) -> bool {
    match text {
        Some(text) => shown == Some(text@),
        None => shown is None,
    }
}

/// The values of texts of which each may be missing, one by one.
pub open spec fn shows_texts(texts: Seq<Option<String>>, shown: Seq<Option<Seq<char>>>) -> bool {
    &&& shown.len() == texts.len()
    &&& forall|i: int|
        #![trigger texts[i]]
        #![trigger shown[i]]
        0 <= i < texts.len() ==> shows_text(texts[i], shown[i])
}

/// The values of lists of bytes, one by one.
pub open spec fn shows_lists(lists: Seq<Vec<u8>>, shown: Seq<Seq<u8>>) -> bool {
    &&& shown.len() == lists.len()
    &&& forall|i: int|
        #![trigger lists[i]]
        #![trigger shown[i]]
        0 <= i < lists.len() ==> shown[i] == lists[i]@
}

/// The value of an error is the same error with the same text.
pub proof fn law_error_is_shown(error: Error)
    ensures
        match error {
            Error::InvalidAsset(reason) => error.deep_view() == ErrorView::InvalidAsset(reason@),
            Error::NotImplemented(reason) => error.deep_view() == ErrorView::NotImplemented(
                reason@,
            ),
            Error::JumbfNotFound => error.deep_view() is JumbfNotFound,
            Error::PdfReadError => error.deep_view() is PdfReadError,
        },
{
}

/// The value of a result is on the side that the result is on, and is what it holds.
pub proof fn law_result_is_shown<T: DeepView, E: DeepView>(result: Result<T, E>)
    ensures
        result is Ok <==> result_view(result) is Ok,
        result matches Ok(value) ==> (result_view(result) matches Ok(shown) && shown
            == value.deep_view()),
        result matches Err(error) ==> (result_view(result) matches Err(shown) && shown
            == error.deep_view()),
{
}

/// The value of a document shows every manifest and the XMP packet.
pub proof fn law_contents_are_shown(pdf: PdfContents)
    ensures
        shows_text(pdf.xmp, pdf.deep_view().xmp),
        match pdf.manifests {
            Ok(Some(manifests)) => pdf.deep_view().manifests matches Ok(Some(shown))
                && shows_lists(manifests@, shown),
            Ok(None) => pdf.deep_view().manifests matches Ok(shown) && shown is None,
            Err(reason) => pdf.deep_view().manifests matches Err(shown) && shown == reason@,
        },
{
}

/// The value of an edit is the same edit with the same bytes.
pub proof fn law_edit_is_shown(edit: ManifestEdit)
    ensures
        match edit {
            ManifestEdit::Remove => edit.deep_view() is Remove,
            ManifestEdit::Replace(bytes) => edit.deep_view() == ManifestEditView::Replace(bytes@),
            ManifestEdit::Embed(bytes) => edit.deep_view() == ManifestEditView::Embed(bytes@),
        },
{
}

/// The value of a request is the same request with the same edit.
pub proof fn law_request_is_shown(request: PdfRequest)
    ensures
        match request {
            PdfRequest::ReadContents => request.deep_view() is ReadContents,
            PdfRequest::OpenForEdit => request.deep_view() is OpenForEdit,
            PdfRequest::Edit(edit) => request.deep_view() == PdfRequestView::Edit(
                edit.deep_view(),
            ),
            PdfRequest::Save => request.deep_view() is Save,
        },
{
}

/// The value of a reply is the same reply with the same outcome.
pub proof fn law_reply_is_shown(reply: PdfReply)
    ensures
        match reply {
            PdfReply::Contents(Ok(pdf)) => reply.deep_view() == PdfReplyView::Contents(
                Ok(pdf.deep_view()),
            ),
            PdfReply::Contents(Err(reason)) => reply.deep_view() == PdfReplyView::Contents(
                Err(reason@),
            ),
            PdfReply::Opened(Ok(has_manifest)) => reply.deep_view() == PdfReplyView::Opened(
                Ok(has_manifest),
            ),
            PdfReply::Opened(Err(reason)) => reply.deep_view() == PdfReplyView::Opened(
                Err(reason@),
            ),
            PdfReply::Edited(Ok(_)) => reply.deep_view() == PdfReplyView::Edited(Ok(())),
            PdfReply::Edited(Err(reason)) => reply.deep_view() == PdfReplyView::Edited(
                Err(reason@),
            ),
            PdfReply::Saved(Ok(bytes)) => reply.deep_view() == PdfReplyView::Saved(Ok(bytes@)),
            PdfReply::Saved(Err(reason)) => reply.deep_view() == PdfReplyView::Saved(
                Err(reason@),
            ),
        },
{
}

/// The value of an operation's progress is the same request, or the same outcome.
pub proof fn law_progress_is_shown<T: DeepView>(progress: Progress<T>)
    ensures
        match progress {
            Progress::Ask(request) => progress.deep_view() == ProgressView::<T::V>::Ask(
                request.deep_view(),
            ),
            Progress::Done(Ok(outcome)) => progress.deep_view() == ProgressView::<T::V>::Done(
                Ok(outcome.deep_view()),
            ),
            Progress::Done(Err(error)) => progress.deep_view() == ProgressView::<T::V>::Done(
                Err(error.deep_view()),
            ),
        },
{
}

/// The value of a located range has the same start and length.
pub proof fn law_located_range_is_shown(range: Result<Option<(usize, usize)>, Error>)
    ensures
        match range {
            Ok(Some((start, length))) => range_view(range) matches Ok(Some((s, l))) && s == start
                && l == length,
            Ok(None) => range_view(range) matches Ok(found) && found is None,
            Err(error) => range_view(range) matches Err(shown) && shown == error.deep_view(),
        },
{
}

/// The value of a range of bytes has the same offset, length and kind.
pub proof fn law_positions_are_shown(positions: HashObjectPositions)
    ensures
        positions.deep_view().offset == positions.offset,
        positions.deep_view().length == positions.length,
        positions.deep_view().htype == positions.htype,
{
}

/// The value of a certificate's identity shows every name and the end of validity.
pub proof fn law_identity_is_shown(identity: CertificateIdentity)
    ensures
        shows_texts(identity.common_names@, identity.deep_view().common_names),
        shows_texts(identity.organizations@, identity.deep_view().organizations),
        shows_texts(identity.organizational_units@, identity.deep_view().organizational_units),
        shows_texts(identity.countries@, identity.deep_view().countries),
        identity.deep_view().not_after == identity.not_after,
{
}

/// The value of an extension shows its identifier, its value and every purpose.
pub proof fn law_extension_is_shown(extension: Extension)
    ensures
        extension.deep_view().oid == extension.oid@,
        extension.deep_view().value == extension.value@,
        match extension.other_purposes {
            Some(purposes) => extension.deep_view().other_purposes matches Some(shown)
                && shown.len() == purposes@.len() && (forall|i: int|
                0 <= i < shown.len() ==> #[trigger] shown[i] == purposes@[i]@),
            None => extension.deep_view().other_purposes is None,
        },
{
}

/// The value of a check shows its certificates and its time.
pub proof fn law_check_is_shown(check: ChainCheck)
    ensures
        check.deep_view().end_entity == check.end_entity@,
        shows_lists(check.intermediates@, check.deep_view().intermediates),
        check.deep_view().signing_time == check.signing_time,
{
}

/// The value of a pool shows every anchor and every noted check.
pub proof fn law_pool_is_shown(pool: CertificateTrustPolicy)
    ensures
        shows_lists(pool.trust_anchor_ders@, pool.deep_view().trust_anchor_ders),
        pool.deep_view().accepted.len() == pool.accepted@.len(),
        forall|i: int|
            0 <= i < pool.accepted@.len() ==> #[trigger] pool.deep_view().accepted[i]
                == pool.accepted@[i].deep_view(),
{
}

/// The value of a distinguished name shows its four fields.
pub proof fn law_name_is_shown(dn: CertDn)
    ensures
        shows_text(dn.cn, dn.deep_view().cn),
        shows_text(dn.o, dn.deep_view().o),
        shows_text(dn.ou, dn.deep_view().ou),
        shows_text(dn.c, dn.deep_view().c),
{
}

/// The value of a chain entry shows its name and the end of validity.
pub proof fn law_entry_is_shown(entry: ChainEntry)
    ensures
        entry.deep_view().dn == entry.dn.deep_view(),
        shows_text(entry.valid_until, entry.deep_view().valid_until),
{
}

/// The value of a trust result shows its two codes and every entry of its chain.
pub proof fn law_trust_result_is_shown(result: TrustResult)
    ensures
        result.deep_view().trust == result.trust@,
        result.deep_view().timestamp == result.timestamp@,
        result.deep_view().chain.len() == result.chain@.len(),
        forall|i: int|
            0 <= i < result.chain@.len() ==> #[trigger] result.deep_view().chain[i]
                == result.chain@[i].deep_view(),
{
}

/// The value of an identity's classification shows its label and its result.
pub proof fn law_identity_entry_is_shown(entry: IdentityTrustEntry)
    ensures
        entry.deep_view().label == entry.label@,
        entry.deep_view().result == entry.result.deep_view(),
{
}

/// The value of a classification shows its label, its claim and every identity.
pub proof fn law_classification_is_shown(classification: TrustClassification)
    ensures
        classification.deep_view().label == classification.label@,
        classification.deep_view().claim == classification.claim.deep_view(),
        classification.deep_view().identities.len() == classification.identities@.len(),
        forall|i: int|
            0 <= i < classification.identities@.len()
                ==> #[trigger] classification.deep_view().identities[i]
                == classification.identities@[i].deep_view(),
{
}

} // verus!
