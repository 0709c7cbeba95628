//! Laws of writing, reading and locating manifest stores in PDFs.

use vstd::prelude::*;

use crate::bytes::{occurs_at, overwritten};
use crate::cai_write::{write_consistent, write_next, write_start, CaiWriteView};
use crate::error::ErrorView;
use crate::object_locations::{
    location_marker, locating_consistent, locating_next, locating_start, ranges_around,
    HashBlockObjectType, ObjectLocatingView, ObjectRange,
};
use crate::pdf::{
    ManifestEditView, PdfContentsView, PdfReplyView, PdfRequestView, ProgressView,
};
use crate::pdf_io::{
    manifest_range, occurs_twice, single_manifest, unique_position, MANIFEST_AMBIGUOUS,
};

verus! {

/// A reply answers a request.
pub open spec fn answers(request: PdfRequestView, reply: PdfReplyView) -> bool {
    match request {
        PdfRequestView::ReadContents => reply is Contents,
        PdfRequestView::OpenForEdit => reply is Opened,
        PdfRequestView::Edit(_) => reply is Edited,
        PdfRequestView::Save => reply is Saved,
    }
}

/// A write after a series of replies.
pub open spec fn write_run(write: CaiWriteView, replies: Seq<PdfReplyView>) -> CaiWriteView
    decreases replies.len(),
{
    if replies.len() == 0 {
        write
    } else {
        write_next(write_run(write, replies.drop_last()), replies.last())
    }
}

/// A search after a series of replies.
pub open spec fn locating_run(
    locating: ObjectLocatingView,
    replies: Seq<PdfReplyView>,
) -> ObjectLocatingView
    decreases replies.len(),
{
    if replies.len() == 0 {
        locating
    } else {
        locating_next(locating_run(locating, replies.drop_last()), replies.last())
    }
}

/// How many answers a write can still wait for.
pub open spec fn write_rank(write: CaiWriteView) -> nat {
    match write.step {
        ProgressView::Ask(PdfRequestView::ReadContents) => 4,
        ProgressView::Ask(PdfRequestView::OpenForEdit) => 3,
        ProgressView::Ask(PdfRequestView::Edit(_)) => 2,
        ProgressView::Ask(PdfRequestView::Save) => 1,
        ProgressView::Done(_) => 0,
    }
}

/// How many answers a search can still wait for.
pub open spec fn locating_rank(locating: ObjectLocatingView) -> nat {
    match locating.step {
        ProgressView::Ask(PdfRequestView::ReadContents) => 5,
        ProgressView::Ask(PdfRequestView::OpenForEdit) => 4,
        ProgressView::Ask(PdfRequestView::Edit(ManifestEditView::Remove)) => 3,
        ProgressView::Ask(PdfRequestView::Edit(_)) => 2,
        ProgressView::Ask(PdfRequestView::Save) => 1,
        ProgressView::Done(_) => 0,
    }
}

/// An offset lies in a range.
pub open spec fn covers(range: ObjectRange, offset: int) -> bool {
    range.offset <= offset < range.offset + range.length
}

/// What is found by a unique search stands in the haystack, and nowhere else.
pub proof fn law_unique_position_is_the_occurrence(haystack: Seq<u8>, needle: Seq<u8>, at: int)
    requires
        unique_position(haystack, needle) == Ok::<int, ErrorView>(at),
    ensures
        needle.len() > 0,
        occurs_at(haystack, needle, at),
        forall|i: int| occurs_at(haystack, needle, i) ==> i == at,
{
    let first = choose|i: int| occurs_at(haystack, needle, i);
    assert(occurs_at(haystack, needle, first));
    assert forall|i: int| occurs_at(haystack, needle, i) implies i == at by {
        if i < first {
            assert(occurs_twice(haystack, needle));
        } else if first < i {
            assert(occurs_twice(haystack, needle));
        }
    }
}

/// A needle that stands in a haystack exactly once is found there.
pub proof fn law_only_occurrence_is_found(haystack: Seq<u8>, needle: Seq<u8>, at: int)
    requires
        needle.len() > 0,
        occurs_at(haystack, needle, at),
        forall|i: int| occurs_at(haystack, needle, i) ==> i == at,
    ensures
        unique_position(haystack, needle) == Ok::<int, ErrorView>(at),
{
}

/// The range at which a manifest is located holds the manifest store that is read
/// from the same document.
pub proof fn law_located_range_holds_the_store(
    input: Seq<u8>,
    pdf: PdfContentsView,
    start: int,
    length: int,
)
    requires
        manifest_range(input, Ok(pdf)) == Ok::<Option<(int, int)>, ErrorView>(
            Some((start, length)),
        ),
    ensures
        0 <= start,
        0 < length,
        start + length <= input.len(),
        single_manifest(pdf) == Ok::<Seq<u8>, ErrorView>(input.subrange(start, start + length)),
{
    let manifest = pdf.manifests->Ok_0->Some_0[0];
    law_unique_position_is_the_occurrence(input, manifest, start);
}

/// A store of the size of the located manifest is written without any edit of the
/// document: only the manifest's bytes change, every other byte and the length of
/// the file stay, and the manifest's bytes read as the store.
pub proof fn law_same_size_store_is_patched_in_place(
    input: Seq<u8>,
    store: Seq<u8>,
    pdf: PdfContentsView,
    start: int,
)
    requires
        store.len() > 0,
        manifest_range(input, Ok(pdf)) == Ok::<Option<(int, int)>, ErrorView>(
            Some((start, store.len() as int)),
        ),
    ensures
        ({
            let out = overwritten(input, start, store);
            &&& write_next(write_start(input, store), PdfReplyView::Contents(Ok(pdf))).step
                == ProgressView::<Seq<u8>>::Done(Ok(out))
            &&& out.len() == input.len()
            &&& out.subrange(start, start + store.len()) == store
            &&& forall|i: int|
                0 <= i < input.len() && !(start <= i < start + store.len()) ==> out[i] == input[i]
        }),
{
    law_located_range_holds_the_store(input, pdf, start, store.len() as int);
    let out = overwritten(input, start, store);
    assert(out.subrange(start, start + store.len()) =~= store);
}

/// Once a store has been patched in, it is located at the range that the former
/// manifest had, unless its bytes also stand elsewhere in the file.
pub proof fn law_patched_store_keeps_its_range(
    input: Seq<u8>,
    store: Seq<u8>,
    start: int,
    reread: PdfContentsView,
)
    requires
        store.len() > 0,
        0 <= start,
        start + store.len() <= input.len(),
        reread.manifests == Ok::<Option<Seq<Seq<u8>>>, Seq<char>>(Some(seq![store])),
    ensures
        ({
            let out = overwritten(input, start, store);
            let range = manifest_range(out, Ok(reread));
            &&& single_manifest(reread) == Ok::<Seq<u8>, ErrorView>(store)
            &&& !occurs_twice(out, store) ==> range == Ok::<Option<(int, int)>, ErrorView>(
                Some((start, store.len() as int)),
            )
            &&& occurs_twice(out, store) ==> range == Err::<Option<(int, int)>, ErrorView>(
                ErrorView::InvalidAsset(MANIFEST_AMBIGUOUS@),
            )
        }),
{
    let out = overwritten(input, start, store);
    assert(out.subrange(start, start + store.len()) =~= store);
    assert(occurs_at(out, store, start));
    if !occurs_twice(out, store) {
        assert forall|i: int| occurs_at(out, store, i) implies i == start by {
            if i < start {
                assert(occurs_twice(out, store));
            } else if start < i {
                assert(occurs_twice(out, store));
            }
        }
        law_only_occurrence_is_found(out, store, start);
    }
}

/// Patching the former manifest back in restores the file.
pub proof fn law_patch_can_be_undone(input: Seq<u8>, store: Seq<u8>, start: int)
    requires
        0 <= start,
        start + store.len() <= input.len(),
    ensures
        overwritten(
            overwritten(input, start, store),
            start,
            input.subrange(start, start + store.len()),
        ) == input,
{
    assert(overwritten(
        overwritten(input, start, store),
        start,
        input.subrange(start, start + store.len()),
    ) =~= input);
}

/// A store that cannot be patched in place goes into the document by exactly one
/// edit: it replaces the manifest that is there or is embedded as the first one.
/// What is put out is the document as saved after that edit.
pub proof fn law_other_store_is_edited_in(
    input: Seq<u8>,
    store: Seq<u8>,
    contents: Result<PdfContentsView, Seq<char>>,
    has_manifest: bool,
    saved: Seq<u8>,
)
    requires
        store.len() > 0,
        manifest_range(input, contents) matches Ok(range) && (range matches Some((start, length))
            ==> length != store.len()),
    ensures
        ({
            let asked = write_run(
                write_start(input, store),
                seq![PdfReplyView::Contents(contents), PdfReplyView::Opened(Ok(has_manifest))],
            );
            let edit = if has_manifest {
                ManifestEditView::Replace(store)
            } else {
                ManifestEditView::Embed(store)
            };
            &&& asked.step == ProgressView::<Seq<u8>>::Ask(PdfRequestView::Edit(edit))
            &&& write_run(
                asked,
                seq![PdfReplyView::Edited(Ok(())), PdfReplyView::Saved(Ok(saved))],
            ).step == ProgressView::<Seq<u8>>::Done(Ok(saved))
        }),
{
    reveal_with_fuel(write_run, 3);
    let first = seq![PdfReplyView::Contents(contents), PdfReplyView::Opened(Ok(has_manifest))];
    assert(first.drop_last() =~= seq![PdfReplyView::Contents(contents)]);
    assert(first.drop_last().drop_last() =~= seq![]);
    let second = seq![PdfReplyView::Edited(Ok(())), PdfReplyView::Saved(Ok(saved))];
    assert(second.drop_last() =~= seq![PdfReplyView::Edited(Ok(()))]);
    assert(second.drop_last().drop_last() =~= seq![]);
}

/// An empty store takes the manifest out where there is one, and otherwise leaves
/// the document unedited; either way the document is saved anew.
pub proof fn law_empty_store_removes(input: Seq<u8>, has_manifest: bool, saved: Seq<u8>)
    ensures
        ({
            let asked = write_next(
                write_start(input, Seq::empty()),
                PdfReplyView::Opened(Ok(has_manifest)),
            );
            let edited = if has_manifest {
                write_next(asked, PdfReplyView::Edited(Ok(())))
            } else {
                asked
            };
            &&& has_manifest ==> asked.step == ProgressView::<Seq<u8>>::Ask(
                PdfRequestView::Edit(ManifestEditView::Remove),
            )
            &&& edited.step == ProgressView::<Seq<u8>>::Ask(PdfRequestView::Save)
            &&& write_next(edited, PdfReplyView::Saved(Ok(saved))).step == ProgressView::<
                Seq<u8>,
            >::Done(Ok(saved))
        }),
{
}

/// Whatever the engine replies, and however often, a write keeps its input and its
/// store and never asks for an edit that does not fit the store.
pub proof fn law_write_stays_consistent(
    input: Seq<u8>,
    store: Seq<u8>,
    replies: Seq<PdfReplyView>,
)
    ensures
        ({
            let write = write_run(write_start(input, store), replies);
            &&& write.input == input
            &&& write.store == store
            &&& write_consistent(write)
        }),
    decreases replies.len(),
{
    if replies.len() > 0 {
        law_write_stays_consistent(input, store, replies.drop_last());
    }
}

/// An answer to the pending request brings a write closer to its end, at most four
/// answers end it, any other reply leaves it as it is, and a finished write stays as
/// it is.
pub proof fn law_write_advances(write: CaiWriteView, reply: PdfReplyView)
    ensures
        write.step matches ProgressView::Ask(request) ==> (if answers(request, reply) {
            write_rank(write_next(write, reply)) < write_rank(write)
        } else {
            write_next(write, reply) == write
        }),
        write.step is Done ==> write_next(write, reply) == write,
        write_rank(write) <= 4,
        write_rank(write) == 0 <==> write.step is Done,
{
}

/// A failure that the engine reports ends a write with the failure's text.
pub proof fn law_engine_failure_ends_a_write(
    write: CaiWriteView,
    request: PdfRequestView,
    reply: PdfReplyView,
    reason: Seq<char>,
)
    requires
        write.step == ProgressView::<Seq<u8>>::Ask(request),
        answers(request, reply),
        reply == PdfReplyView::Contents(Err(reason)) || reply == PdfReplyView::Opened(Err(reason))
            || reply == PdfReplyView::Edited(Err(reason)) || reply == PdfReplyView::Saved(
            Err(reason),
        ),
    ensures
        write_next(write, reply).step == ProgressView::<Seq<u8>>::Done(
            Err(ErrorView::InvalidAsset(reason)),
        ),
{
}

/// The ranges around a manifest store split the file: their lengths add up to the
/// file's, and every byte lies in exactly one of them. The store's bytes, and no
/// others, lie in the range for the store.
pub proof fn law_ranges_split_the_file(
    manifest_pos: int,
    manifest_len: int,
    file_end: int,
    offset: int,
)
    requires
        0 <= manifest_pos,
        0 <= manifest_len,
        manifest_pos + manifest_len <= file_end,
        0 <= offset < file_end,
    ensures
        ({
            let ranges = ranges_around(manifest_pos, manifest_len, file_end);
            &&& ranges.len() == 3
            &&& ranges[0].htype == HashBlockObjectType::Cai
            &&& ranges[1].htype == HashBlockObjectType::Other
            &&& ranges[2].htype == HashBlockObjectType::Other
            &&& ranges[0].length + ranges[1].length + ranges[2].length == file_end
            &&& covers(ranges[0], offset) <==> manifest_pos <= offset < manifest_pos + manifest_len
            &&& exists|k: int| 0 <= k < 3 && #[trigger] covers(ranges[k], offset)
            &&& forall|j: int, k: int|
                0 <= j < 3 && 0 <= k < 3 && #[trigger] covers(ranges[j], offset)
                    && #[trigger] covers(ranges[k], offset) ==> j == k
        }),
{
    let ranges = ranges_around(manifest_pos, manifest_len, file_end);
    if offset < manifest_pos {
        assert(covers(ranges[1], offset));
    } else if offset < manifest_pos + manifest_len {
        assert(covers(ranges[0], offset));
    } else {
        assert(covers(ranges[2], offset));
    }
}

/// A search that ends well tells the ranges of one file around a place that lies inside
/// it: the input around its manifest, or the saved document around the marker.
pub proof fn law_located_ranges_lie_in_the_file(
    locating: ObjectLocatingView,
    reply: PdfReplyView,
    ranges: Seq<ObjectRange>,
)
    requires
        locating.step is Ask,
        locating_next(locating, reply).step == ProgressView::<Seq<ObjectRange>>::Done(Ok(ranges)),
    ensures
        ({
            let file = match reply {
                PdfReplyView::Saved(Ok(saved)) => saved,
                _ => locating.input,
            };
            let pos = ranges[0].offset;
            let len = ranges[0].length;
            &&& 0 <= pos
            &&& 0 < len
            &&& pos + len <= file.len()
            &&& ranges == ranges_around(pos, len, file.len() as int)
            &&& reply is Saved ==> file.subrange(pos, pos + len) == location_marker()
            &&& reply matches PdfReplyView::Contents(Ok(pdf)) ==> single_manifest(pdf) == Ok::<
                Seq<u8>,
                ErrorView,
            >(file.subrange(pos, pos + len))
        }),
{
    match reply {
        PdfReplyView::Contents(contents) => {
            let range = manifest_range(locating.input, contents)->Ok_0->Some_0;
            law_located_range_holds_the_store(
                locating.input,
                contents->Ok_0,
                range.0,
                range.1,
            );
        },
        PdfReplyView::Saved(saved) => {
            let bytes = saved->Ok_0;
            let start = unique_position(bytes, location_marker())->Ok_0;
            law_unique_position_is_the_occurrence(bytes, location_marker(), start);
        },
        _ => {},
    }
}

/// The ranges that are told of a document stay right when a store of the manifest's size
/// is written into it: a search of the output tells the same ranges, unless the store's
/// bytes also stand elsewhere in it.
pub proof fn law_same_size_write_keeps_the_ranges(
    input: Seq<u8>,
    store: Seq<u8>,
    pdf: PdfContentsView,
    reread: PdfContentsView,
    start: int,
)
    requires
        store.len() > 0,
        manifest_range(input, Ok(pdf)) == Ok::<Option<(int, int)>, ErrorView>(
            Some((start, store.len() as int)),
        ),
        reread.manifests == Ok::<Option<Seq<Seq<u8>>>, Seq<char>>(Some(seq![store])),
        !occurs_twice(overwritten(input, start, store), store),
    ensures
        locating_next(
            locating_start(overwritten(input, start, store)),
            PdfReplyView::Contents(Ok(reread)),
        ).step == locating_next(locating_start(input), PdfReplyView::Contents(Ok(pdf))).step,
        locating_next(locating_start(input), PdfReplyView::Contents(Ok(pdf))).step is Done,
{
    law_located_range_holds_the_store(input, pdf, start, store.len() as int);
    law_same_size_store_is_patched_in_place(input, store, pdf, start);
    law_patched_store_keeps_its_range(input, store, start, reread);
}

/// A manifest that a document has but that cannot be read is taken out before the marker
/// is embedded.
pub proof fn law_search_clears_the_way_for_the_marker(locating: ObjectLocatingView)
    requires
        locating.step == ProgressView::<Seq<ObjectRange>>::Ask(PdfRequestView::OpenForEdit),
    ensures
        ({
            let removing = locating_next(locating, PdfReplyView::Opened(Ok(true)));
            let embedding = locating_next(removing, PdfReplyView::Edited(Ok(())));
            let saving = locating_next(embedding, PdfReplyView::Edited(Ok(())));
            &&& removing.step == ProgressView::<Seq<ObjectRange>>::Ask(
                PdfRequestView::Edit(ManifestEditView::Remove),
            )
            &&& embedding.step == ProgressView::<Seq<ObjectRange>>::Ask(
                PdfRequestView::Edit(ManifestEditView::Embed(location_marker())),
            )
            &&& saving.step == ProgressView::<Seq<ObjectRange>>::Ask(PdfRequestView::Save)
        }),
{
}

/// A failure that the engine reports ends a search with the failure's text.
pub proof fn law_engine_failure_ends_a_search(
    locating: ObjectLocatingView,
    request: PdfRequestView,
    reply: PdfReplyView,
    reason: Seq<char>,
)
    requires
        locating.step == ProgressView::<Seq<ObjectRange>>::Ask(request),
        answers(request, reply),
        reply == PdfReplyView::Contents(Err(reason)) || reply == PdfReplyView::Opened(Err(reason))
            || reply == PdfReplyView::Edited(Err(reason)) || reply == PdfReplyView::Saved(
            Err(reason),
        ),
    ensures
        locating_next(locating, reply).step == ProgressView::<Seq<ObjectRange>>::Done(
            Err(ErrorView::InvalidAsset(reason)),
        ),
{
}

/// What the engine is asked, in turn, to give a document its first manifest.
pub open spec fn first_embedding(payload: Seq<u8>) -> Seq<PdfRequestView> {
    seq![
        PdfRequestView::ReadContents,
        PdfRequestView::OpenForEdit,
        PdfRequestView::Edit(ManifestEditView::Embed(payload)),
        PdfRequestView::Save,
    ]
}

/// The replies of an engine to the first three requests of [`first_embedding`].
pub open spec fn embedding_replies(contents: Result<PdfContentsView, Seq<char>>) -> Seq<
    PdfReplyView,
> {
    seq![
        PdfReplyView::Contents(contents),
        PdfReplyView::Opened(Ok(false)),
        PdfReplyView::Edited(Ok(())),
    ]
}

/// Where a document has no manifest, a search has the engine do exactly what a write
/// has it do, with the marker in the place of the store: it finds where a write puts
/// its store.
pub proof fn law_search_follows_the_write(
    input: Seq<u8>,
    store: Seq<u8>,
    contents: Result<PdfContentsView, Seq<char>>,
    count: int,
)
    requires
        store.len() > 0,
        manifest_range(input, contents) == Ok::<Option<(int, int)>, ErrorView>(None),
        0 <= count < 4,
    ensures
        write_run(write_start(input, store), embedding_replies(contents).take(count)).step
            == ProgressView::<Seq<u8>>::Ask(first_embedding(store)[count]),
        locating_run(locating_start(input), embedding_replies(contents).take(count)).step
            == ProgressView::<Seq<ObjectRange>>::Ask(first_embedding(location_marker())[count]),
    decreases count,
{
    if count > 0 {
        law_search_follows_the_write(input, store, contents, count - 1);
        law_write_stays_consistent(input, store, embedding_replies(contents).take(count - 1));
        law_search_stays_consistent(input, embedding_replies(contents).take(count - 1));
        assert(embedding_replies(contents).take(count).drop_last() =~= embedding_replies(
            contents,
        ).take(count - 1));
    }
}

/// The document that an engine saves is what a write puts out, and what a search
/// looks for the marker in.
pub proof fn law_saved_document_ends_both(
    write: CaiWriteView,
    locating: ObjectLocatingView,
    saved: Seq<u8>,
)
    requires
        write.step == ProgressView::<Seq<u8>>::Ask(PdfRequestView::Save),
        locating.step == ProgressView::<Seq<ObjectRange>>::Ask(PdfRequestView::Save),
    ensures
        write_next(write, PdfReplyView::Saved(Ok(saved))).step == ProgressView::<Seq<u8>>::Done(
            Ok(saved),
        ),
        locating_next(locating, PdfReplyView::Saved(Ok(saved))).step == match unique_position(
            saved,
            location_marker(),
        ) {
            Ok(pos) => ProgressView::<Seq<ObjectRange>>::Done(
                Ok(ranges_around(pos, location_marker().len() as int, saved.len() as int)),
            ),
            Err(error) => ProgressView::<Seq<ObjectRange>>::Done(Err(error)),
        },
{
}

/// Whatever the engine replies, a search keeps its input, embeds nothing but the
/// marker and replaces nothing.
pub proof fn law_search_stays_consistent(input: Seq<u8>, replies: Seq<PdfReplyView>)
    ensures
        ({
            let locating = locating_run(locating_start(input), replies);
            &&& locating.input == input
            &&& locating_consistent(locating)
        }),
    decreases replies.len(),
{
    if replies.len() > 0 {
        law_search_stays_consistent(input, replies.drop_last());
    }
}

/// An answer to the pending request brings a search closer to its end, at most five
/// answers end it, any other reply leaves it as it is, and a finished search stays as
/// it is.
pub proof fn law_search_advances(locating: ObjectLocatingView, reply: PdfReplyView)
    ensures
        locating.step matches ProgressView::Ask(request) ==> (if answers(request, reply) {
            locating_rank(locating_next(locating, reply)) < locating_rank(locating)
        } else {
            locating_next(locating, reply) == locating
        }),
        locating.step is Done ==> locating_next(locating, reply) == locating,
        locating_rank(locating) <= 5,
        locating_rank(locating) == 0 <==> locating.step is Done,
{
}

/// The bytes of `part` stand in `file` one after the other, the first at `at`.
pub open spec fn reads_at(file: Seq<u8>, part: Seq<u8>, at: int) -> bool {
    &&& 0 <= at
    &&& at + part.len() <= file.len()
    &&& forall|j: int| 0 <= j < part.len() ==> file[at + j] == #[trigger] part[j]
}

/// The bytes of `part` stand in `file` at `at` and nowhere else.
pub open spec fn reads_only_at(file: Seq<u8>, part: Seq<u8>, at: int) -> bool {
    &&& reads_at(file, part, at)
    &&& forall|i: int| #[trigger] reads_at(file, part, i) ==> i == at
}

/// The document has exactly one manifest, and it is `manifest`.
pub open spec fn has_one_manifest(pdf: PdfContentsView, manifest: Seq<u8>) -> bool {
    pdf.manifests matches Ok(Some(manifests)) && manifests.len() == 1 && manifests[0] == manifest
}

/// The ranges are those around a store at `pos` with `len` bytes in a file of `end` bytes: first the
/// store, then all that stands before it, then all that stands after it.
pub open spec fn split_around(ranges: Seq<ObjectRange>, pos: int, len: int, end: int) -> bool {
    &&& ranges.len() == 3
    &&& ranges[0].htype is Cai
    &&& ranges[0].offset == pos
    &&& ranges[0].length == len
    &&& ranges[1].htype is Other
    &&& ranges[1].offset == 0
    &&& ranges[1].offset + ranges[1].length == ranges[0].offset
    &&& ranges[2].htype is Other
    &&& ranges[0].offset + ranges[0].length == ranges[2].offset
    &&& ranges[2].offset + ranges[2].length == end
}

/// To occur at a place is to have every byte there.
pub proof fn law_occurring_is_bytewise(file: Seq<u8>, part: Seq<u8>, at: int)
    ensures
        occurs_at(file, part, at) <==> reads_at(file, part, at),
{
    if occurs_at(file, part, at) {
        assert forall|j: int| 0 <= j < part.len() implies file[at + j] == #[trigger] part[j] by {
            assert(file.subrange(at, at + part.len())[j] == file[at + j]);
        }
    }
    if reads_at(file, part, at) {
        assert(file.subrange(at, at + part.len()) =~= part);
    }
}

/// Overwriting changes the patched bytes and no others.
pub proof fn law_overwriting_is_bytewise(data: Seq<u8>, start: int, patch: Seq<u8>)
    requires
        0 <= start,
        start + patch.len() <= data.len(),
    ensures
        overwritten(data, start, patch).len() == data.len(),
        forall|i: int|
            0 <= i < data.len() ==> #[trigger] overwritten(data, start, patch)[i] == (if start <= i
                < start + patch.len() {
                patch[i - start]
            } else {
                data[i]
            }),
{
}

/// A unique search succeeds at a place exactly if a needle that has bytes stands there and
/// nowhere else. It fails in one way for an empty needle, in a second for one that stands
/// nowhere, and in a third for one that stands at two places.
pub proof fn law_unique_search_outcomes(haystack: Seq<u8>, needle: Seq<u8>, at: int, other: int)
    ensures
        unique_position(haystack, needle) == Ok::<int, ErrorView>(at) <==> needle.len() > 0
            && reads_only_at(haystack, needle, at),
        needle.len() == 0 ==> unique_position(haystack, needle) == Err::<int, ErrorView>(
            ErrorView::InvalidAsset("embedded C2PA manifest in PDF is empty"@),
        ),
        needle.len() > 0 && (forall|i: int| !#[trigger] reads_at(haystack, needle, i))
            ==> unique_position(haystack, needle) == Err::<int, ErrorView>(
            ErrorView::InvalidAsset("unable to locate embedded C2PA manifest bytes in PDF"@),
        ),
        needle.len() > 0 && at != other && reads_at(haystack, needle, at) && reads_at(
            haystack,
            needle,
            other,
        ) ==> unique_position(haystack, needle) == Err::<int, ErrorView>(
            ErrorView::InvalidAsset("embedded C2PA manifest bytes appear multiple times in PDF"@),
        ),
{
    assert forall|i: int| #[trigger] occurs_at(haystack, needle, i) == reads_at(
        haystack,
        needle,
        i,
    ) by {
        law_occurring_is_bytewise(haystack, needle, i);
    }
    assert forall|i: int| #[trigger] reads_at(haystack, needle, i) == occurs_at(
        haystack,
        needle,
        i,
    ) by {
        law_occurring_is_bytewise(haystack, needle, i);
    }
    if unique_position(haystack, needle) == Ok::<int, ErrorView>(at) {
        law_unique_position_is_the_occurrence(haystack, needle, at);
    }
    if needle.len() > 0 && reads_only_at(haystack, needle, at) {
        law_only_occurrence_is_found(haystack, needle, at);
    }
    if at != other && reads_at(haystack, needle, at) && reads_at(haystack, needle, other) {
        assert(occurs_at(haystack, needle, at) && occurs_at(haystack, needle, other));
        if at < other {
            assert(occurs_twice(haystack, needle));
        } else {
            assert(occurs_twice(haystack, needle));
        }
    }
}

/// The store that is read is the one manifest of the document. Reading fails in one way if
/// the manifests cannot be read, in a second if there are none, and in a third if their
/// number is not one.
pub proof fn law_reading_outcomes(pdf: PdfContentsView, store: Seq<u8>)
    ensures
        single_manifest(pdf) == Ok::<Seq<u8>, ErrorView>(store) <==> has_one_manifest(pdf, store),
        pdf.manifests is Err <==> single_manifest(pdf) == Err::<Seq<u8>, ErrorView>(
            ErrorView::PdfReadError,
        ),
        (pdf.manifests matches Ok(found) && found is None) <==> single_manifest(pdf) == Err::<
            Seq<u8>,
            ErrorView,
        >(ErrorView::JumbfNotFound),
        (pdf.manifests matches Ok(Some(manifests)) && manifests.len() != 1) <==> single_manifest(
            pdf,
        ) == Err::<Seq<u8>, ErrorView>(
            ErrorView::NotImplemented("c2pa-rs only supports reading PDFs with one manifest"@),
        ),
{
}

/// Locating tells that there is no manifest exactly for documents that have none, and a
/// range exactly if the one manifest of the document has that length and stands there and
/// nowhere else in the file. It fails in a way of its own for a manifest that is empty, that
/// stands nowhere, or that stands at two places, and for any number of manifests but one.
/// What keeps the document or its manifests from being read is passed on.
pub proof fn law_locating_outcomes(
    input: Seq<u8>,
    pdf: PdfContentsView,
    start: int,
    length: int,
    other: int,
    reason: Seq<char>,
)
    ensures
        manifest_range(input, Ok(pdf)) == Ok::<Option<(int, int)>, ErrorView>(None) <==> (
        pdf.manifests matches Ok(found) && found is None),
        manifest_range(input, Ok(pdf)) == Ok::<Option<(int, int)>, ErrorView>(
            Some((start, length)),
        ) <==> (pdf.manifests matches Ok(Some(manifests)) && manifests.len() == 1
            && manifests[0].len() > 0 && manifests[0].len() == length && reads_only_at(
            input,
            manifests[0],
            start,
        )),
        (pdf.manifests matches Ok(Some(manifests)) && manifests.len() == 1 && manifests[0].len()
            == 0) ==> manifest_range(input, Ok(pdf)) == Err::<Option<(int, int)>, ErrorView>(
            ErrorView::InvalidAsset("embedded C2PA manifest in PDF is empty"@),
        ),
        (pdf.manifests matches Ok(Some(manifests)) && manifests.len() == 1 && manifests[0].len() > 0
            && (forall|i: int| !#[trigger] reads_at(input, manifests[0], i))) ==> manifest_range(
            input,
            Ok(pdf),
        ) == Err::<Option<(int, int)>, ErrorView>(
            ErrorView::InvalidAsset("unable to locate embedded C2PA manifest bytes in PDF"@),
        ),
        (pdf.manifests matches Ok(Some(manifests)) && manifests.len() == 1 && manifests[0].len() > 0
            && start != other && reads_at(input, manifests[0], start) && reads_at(
            input,
            manifests[0],
            other,
        )) ==> manifest_range(input, Ok(pdf)) == Err::<Option<(int, int)>, ErrorView>(
            ErrorView::InvalidAsset("embedded C2PA manifest bytes appear multiple times in PDF"@),
        ),
        (pdf.manifests matches Ok(Some(manifests)) && manifests.len() != 1) ==> manifest_range(
            input,
            Ok(pdf),
        ) == Err::<Option<(int, int)>, ErrorView>(
            ErrorView::NotImplemented("c2pa-rs only supports PDFs with one manifest"@),
        ),
        pdf.manifests == Err::<Option<Seq<Seq<u8>>>, Seq<char>>(reason) ==> manifest_range(
            input,
            Ok(pdf),
        ) == Err::<Option<(int, int)>, ErrorView>(ErrorView::InvalidAsset(reason)),
        manifest_range(input, Err(reason)) == Err::<Option<(int, int)>, ErrorView>(
            ErrorView::InvalidAsset(reason),
        ),
{
    if let Ok(Some(manifests)) = pdf.manifests {
        law_unique_search_outcomes(input, manifests[0], start, other);
    }
}

/// Nothing but its manifests bears on what is read of a document as its store, or located
/// in it: documents with the same manifests, whatever their XMP packets, are treated alike.
pub proof fn law_only_manifests_matter(input: Seq<u8>, a: PdfContentsView, b: PdfContentsView)
    requires
        a.manifests == b.manifests,
    ensures
        single_manifest(a) == single_manifest(b),
        manifest_range(input, Ok(a)) == manifest_range(input, Ok(b)),
{
}

/// A document without a manifest is opened for its first one, by a write of a store that
/// has bytes as by a search.
pub proof fn law_document_without_manifest_is_opened(
    input: Seq<u8>,
    store: Seq<u8>,
    pdf: PdfContentsView,
)
    requires
        store.len() > 0,
        pdf.manifests matches Ok(found) && found is None,
    ensures
        write_next(write_start(input, store), PdfReplyView::Contents(Ok(pdf))).step
            == ProgressView::<Seq<u8>>::Ask(PdfRequestView::OpenForEdit),
        locating_next(locating_start(input), PdfReplyView::Contents(Ok(pdf))).step
            == ProgressView::<Seq<ObjectRange>>::Ask(PdfRequestView::OpenForEdit),
{
}

/// A manifest that cannot be located ends a write of a store that has bytes, and a search,
/// with the reason.
pub proof fn law_unlocated_manifest_ends_both(
    input: Seq<u8>,
    store: Seq<u8>,
    contents: Result<PdfContentsView, Seq<char>>,
    error: ErrorView,
)
    requires
        store.len() > 0,
        manifest_range(input, contents) == Err::<Option<(int, int)>, ErrorView>(error),
    ensures
        write_next(write_start(input, store), PdfReplyView::Contents(contents)).step
            == ProgressView::<Seq<u8>>::Done(Err(error)),
        locating_next(locating_start(input), PdfReplyView::Contents(contents)).step
            == ProgressView::<Seq<ObjectRange>>::Done(Err(error)),
{
}

/// A write starts with its input and its store, and asks for the contents of the document
/// exactly if the store has bytes; otherwise it has the document opened at once.
pub proof fn law_write_starts(input: Seq<u8>, store: Seq<u8>)
    ensures
        write_start(input, store).input == input,
        write_start(input, store).store == store,
        store.len() > 0 ==> write_start(input, store).step == ProgressView::<Seq<u8>>::Ask(
            PdfRequestView::ReadContents,
        ),
        store.len() == 0 ==> write_start(input, store).step == ProgressView::<Seq<u8>>::Ask(
            PdfRequestView::OpenForEdit,
        ),
{
}

/// A search starts with its input and asks for the contents of the document.
pub proof fn law_search_starts(input: Seq<u8>)
    ensures
        locating_start(input).input == input,
        locating_start(input).step == ProgressView::<Seq<ObjectRange>>::Ask(
            PdfRequestView::ReadContents,
        ),
{
}

/// A store of the size of the one manifest that stands in the file is written by putting
/// each of its bytes in the place of the manifest's, and leaving every other byte.
pub proof fn law_write_patches_the_manifest(
    input: Seq<u8>,
    store: Seq<u8>,
    pdf: PdfContentsView,
    manifest: Seq<u8>,
    start: int,
)
    requires
        store.len() > 0,
        has_one_manifest(pdf, manifest),
        reads_only_at(input, manifest, start),
        manifest.len() == store.len(),
    ensures
        write_next(
            write_start(input, store),
            PdfReplyView::Contents(Ok(pdf)),
        ).step matches ProgressView::Done(Ok(out)) && out.len() == input.len() && (forall|i: int|
            0 <= i < input.len() ==> #[trigger] out[i] == (if start <= i < start + store.len() {
                store[i - start]
            } else {
                input[i]
            })),
{
    law_unique_search_outcomes(input, manifest, start, start);
    law_overwriting_is_bytewise(input, start, store);
}

/// A store whose size differs from that of the one manifest that stands in the file has the
/// document opened for an edit.
pub proof fn law_write_of_another_size_opens_the_document(
    input: Seq<u8>,
    store: Seq<u8>,
    pdf: PdfContentsView,
    manifest: Seq<u8>,
    start: int,
)
    requires
        store.len() > 0,
        has_one_manifest(pdf, manifest),
        manifest.len() > 0,
        reads_only_at(input, manifest, start),
        manifest.len() != store.len(),
    ensures
        write_next(write_start(input, store), PdfReplyView::Contents(Ok(pdf))).step
            == ProgressView::<Seq<u8>>::Ask(PdfRequestView::OpenForEdit),
{
    law_unique_search_outcomes(input, manifest, start, start);
}

/// Once a document is open, a write asks for the edit that its store and the document call
/// for: a store that has bytes replaces the manifest that is there or is embedded as the
/// first one, an empty store takes the manifest out, and where there is nothing to take out
/// the document is saved as it is.
pub proof fn law_open_document_is_edited(write: CaiWriteView, has_manifest: bool)
    requires
        write.step == ProgressView::<Seq<u8>>::Ask(PdfRequestView::OpenForEdit),
    ensures
        ({
            let next = write_next(write, PdfReplyView::Opened(Ok(has_manifest)));
            &&& next.input == write.input
            &&& next.store == write.store
            &&& write.store.len() > 0 && has_manifest <==> (next.step
                matches ProgressView::Ask(PdfRequestView::Edit(ManifestEditView::Replace(bytes)))
                && bytes == write.store)
            &&& write.store.len() > 0 && !has_manifest <==> (next.step
                matches ProgressView::Ask(PdfRequestView::Edit(ManifestEditView::Embed(bytes)))
                && bytes == write.store)
            &&& write.store.len() == 0 && has_manifest <==> next.step == ProgressView::<
                Seq<u8>,
            >::Ask(PdfRequestView::Edit(ManifestEditView::Remove))
            &&& write.store.len() == 0 && !has_manifest <==> next.step == ProgressView::<
                Seq<u8>,
            >::Ask(PdfRequestView::Save)
        }),
{
}

/// After any edit a write has the document saved, and what is saved is put out.
pub proof fn law_edited_document_is_put_out(
    write: CaiWriteView,
    edit: ManifestEditView,
    saved: Seq<u8>,
)
    requires
        write.step == ProgressView::<Seq<u8>>::Ask(PdfRequestView::Edit(edit)),
    ensures
        write_next(write, PdfReplyView::Edited(Ok(()))).step == ProgressView::<Seq<u8>>::Ask(
            PdfRequestView::Save,
        ),
        write_next(
            write_next(write, PdfReplyView::Edited(Ok(()))),
            PdfReplyView::Saved(Ok(saved)),
        ).step == ProgressView::<Seq<u8>>::Done(Ok(saved)),
{
}

/// The ranges around a store meet: what stands before it ends where the store starts, and
/// what stands after it starts where the store ends and reaches to the end of the file, or
/// has no bytes if the file ends before.
pub proof fn law_ranges_meet(pos: int, len: int, end: int)
    ensures
        pos + len <= end ==> split_around(ranges_around(pos, len, end), pos, len, end),
        pos + len > end ==> split_around(ranges_around(pos, len, end), pos, len, pos + len),
{
}

/// A search of a file in which the one manifest of the document stands once ends at once,
/// and tells where the manifest stands, how long it is, and all that is around it.
pub proof fn law_search_tells_where_the_manifest_stands(
    input: Seq<u8>,
    pdf: PdfContentsView,
    manifest: Seq<u8>,
    start: int,
)
    requires
        has_one_manifest(pdf, manifest),
        manifest.len() > 0,
        reads_only_at(input, manifest, start),
    ensures
        locating_next(
            locating_start(input),
            PdfReplyView::Contents(Ok(pdf)),
        ).step matches ProgressView::Done(Ok(ranges)) && split_around(
            ranges,
            start,
            manifest.len() as int,
            input.len() as int,
        ),
{
    law_unique_search_outcomes(input, manifest, start, start);
    law_ranges_meet(start, manifest.len() as int, input.len() as int);
}

/// A located manifest is what a search tells: whatever the input, the ranges are those
/// around the manifest, and no located manifest makes a search fail.
pub proof fn law_located_manifest_is_told(
    input: Seq<u8>,
    contents: Result<PdfContentsView, Seq<char>>,
    start: int,
    length: int,
)
    requires
        manifest_range(input, contents) == Ok::<Option<(int, int)>, ErrorView>(
            Some((start, length)),
        ),
    ensures
        locating_next(
            locating_start(input),
            PdfReplyView::Contents(contents),
        ).step matches ProgressView::Done(Ok(ranges)) && split_around(
            ranges,
            start,
            length,
            input.len() as int,
        ),
{
    law_located_range_holds_the_store(input, contents->Ok_0, start, length);
    law_ranges_meet(start, length, input.len() as int);
}

/// The marker's bytes are its characters.
pub proof fn law_marker_bytes()
    ensures
        location_marker().len() == "TRUFO_C2PA_PDF_MARKER_9D4B6F11A2C3E57A"@.len(),
        location_marker().len() == 38,
        forall|i: int|
            0 <= i < location_marker().len() ==> #[trigger] location_marker()[i]
                == "TRUFO_C2PA_PDF_MARKER_9D4B6F11A2C3E57A"@[i] as u8,
{
    reveal_strlit("TRUFO_C2PA_PDF_MARKER_9D4B6F11A2C3E57A");
    assert(vstd::utf8::is_ascii_chars("TRUFO_C2PA_PDF_MARKER_9D4B6F11A2C3E57A"@));
    vstd::utf8::is_ascii_chars_encode_utf8("TRUFO_C2PA_PDF_MARKER_9D4B6F11A2C3E57A"@);
}

/// A search whose saved document holds the marker once tells the ranges of that document
/// around the marker. It fails if the marker stands nowhere, or at two places.
pub proof fn law_search_tells_where_the_marker_stands(
    locating: ObjectLocatingView,
    saved: Seq<u8>,
    pos: int,
    other: int,
)
    requires
        locating.step == ProgressView::<Seq<ObjectRange>>::Ask(PdfRequestView::Save),
    ensures
        ({
            let step = locating_next(locating, PdfReplyView::Saved(Ok(saved))).step;
            &&& reads_only_at(saved, location_marker(), pos) ==> (step matches ProgressView::Done(
                Ok(ranges),
            ) && split_around(ranges, pos, 38, saved.len() as int))
            &&& (forall|i: int| !#[trigger] reads_at(saved, location_marker(), i)) ==> step
                == ProgressView::<Seq<ObjectRange>>::Done(
                Err(
                    ErrorView::InvalidAsset(
                        "unable to locate embedded C2PA manifest bytes in PDF"@,
                    ),
                ),
            )
            &&& pos != other && reads_at(saved, location_marker(), pos) && reads_at(
                saved,
                location_marker(),
                other,
            ) ==> step == ProgressView::<Seq<ObjectRange>>::Done(
                Err(
                    ErrorView::InvalidAsset(
                        "embedded C2PA manifest bytes appear multiple times in PDF"@,
                    ),
                ),
            )
        }),
{
    law_marker_bytes();
    law_unique_search_outcomes(saved, location_marker(), pos, other);
    law_ranges_meet(pos, 38, saved.len() as int);
}

/// Once a document is open, a search embeds the marker, after it has taken out a manifest
/// that is there, and has the document saved.
pub proof fn law_open_document_gets_the_marker(
    locating: ObjectLocatingView,
    has_manifest: bool,
    edit: ManifestEditView,
)
    ensures
        locating.step == ProgressView::<Seq<ObjectRange>>::Ask(PdfRequestView::OpenForEdit)
            ==> locating_next(locating, PdfReplyView::Opened(Ok(has_manifest))).step
            == ProgressView::<Seq<ObjectRange>>::Ask(
            PdfRequestView::Edit(
                if has_manifest {
                    ManifestEditView::Remove
                } else {
                    ManifestEditView::Embed(location_marker())
                },
            ),
        ),
        locating.step == ProgressView::<Seq<ObjectRange>>::Ask(PdfRequestView::Edit(edit))
            ==> locating_next(locating, PdfReplyView::Edited(Ok(()))).step == ProgressView::<
            Seq<ObjectRange>,
        >::Ask(
            if edit is Remove {
                PdfRequestView::Edit(ManifestEditView::Embed(location_marker()))
            } else {
                PdfRequestView::Save
            },
        ),
{
}

} // verus!
