//! Searching, comparing and splicing byte sequences.

use vstd::prelude::*;

verus! {

/// `needle` stands in `haystack` with its first byte at `at`.
pub open spec fn occurs_at(haystack: Seq<u8>, needle: Seq<u8>, at: int) -> bool {
    &&& 0 <= at
    &&& at + needle.len() <= haystack.len()
    &&& haystack.subrange(at, at + needle.len()) == needle
}

/// `data` with the bytes from `start` on overwritten by `patch`.
pub open spec fn overwritten(data: Seq<u8>, start: int, patch: Seq<u8>) -> Seq<u8> {
    data.subrange(0, start) + patch + data.subrange(start + patch.len(), data.len() as int)
}

/// Whether two byte slices hold the same bytes.
pub fn bytes_equal(a: &[u8], b: &[u8]) -> (equal: bool)
    ensures
        equal == (a@ == b@),
{
    if a.len() != b.len() {
        return false;
    }
    let mut i: usize = 0;
    while i < a.len()
        invariant
            i <= a.len(),
            a.len() == b.len(),
            forall|j: int| 0 <= j < i ==> a@[j] == b@[j],
        decreases a.len() - i,
    {
        if a[i] != b[i] {
            return false;
        }
        i += 1;
    }
    assert(a@ =~= b@);
    true
}

/// Whether two lists of byte strings hold the same strings in the same order.
pub fn lists_equal(a: &[Vec<u8>], b: &[Vec<u8>]) -> (equal: bool)
    ensures
        equal == (a.deep_view() == b.deep_view()),
{
    if a.len() != b.len() {
        assert(a.deep_view().len() != b.deep_view().len());
        return false;
    }
    let mut i: usize = 0;
    while i < a.len()
        invariant
            i <= a.len(),
            a.len() == b.len(),
            forall|j: int| 0 <= j < i ==> a.deep_view()[j] == b.deep_view()[j],
        decreases a.len() - i,
    {
        proof {
            lemma_deep_bytes(a[i as int]);
            lemma_deep_bytes(b[i as int]);
        }
        if !bytes_equal(a[i].as_slice(), b[i].as_slice()) {
            assert(a.deep_view()[i as int] != b.deep_view()[i as int]);
            return false;
        }
        i += 1;
    }
    assert(a.deep_view() =~= b.deep_view());
    true
}

/// Whether `needle` stands in `haystack` at `at`.
pub fn stands_at(haystack: &[u8], needle: &[u8], at: usize) -> (found: bool)
    requires
        at + needle.len() <= haystack.len(),
    ensures
        found == occurs_at(haystack@, needle@, at as int),
{
    let mut i: usize = 0;
    while i < needle.len()
        invariant
            i <= needle.len(),
            at + needle.len() <= haystack.len(),
            forall|j: int| 0 <= j < i ==> haystack@[at + j] == needle@[j],
        decreases needle.len() - i,
    {
        if haystack[at + i] != needle[i] {
            assert(haystack@.subrange(at as int, at + needle.len())[i as int] != needle@[i as int]);
            return false;
        }
        i += 1;
    }
    assert(haystack@.subrange(at as int, at + needle.len()) =~= needle@);
    true
}

/// The first position at or after `from` where `needle` stands in `haystack`.
pub fn find_from(haystack: &[u8], needle: &[u8], from: usize) -> (found: Option<usize>)
    ensures
        match found {
            Some(at) => {
                &&& from <= at
                &&& occurs_at(haystack@, needle@, at as int)
                &&& forall|i: int| from <= i < at ==> !occurs_at(haystack@, needle@, i)
            },
            None => forall|i: int| from <= i ==> !occurs_at(haystack@, needle@, i),
        },
{
    if needle.len() > haystack.len() {
        return None;
    }
    let last: usize = haystack.len() - needle.len();
    let mut at: usize = from;
    while at <= last
        invariant
            needle.len() <= haystack.len(),
            last == haystack.len() - needle.len(),
            from <= at,
            forall|i: int| from <= i < at ==> !occurs_at(haystack@, needle@, i),
        decreases last + 1 - at,
    {
        if stands_at(haystack, needle, at) {
            return Some(at);
        }
        if at == last {
            return None;
        }
        at += 1;
    }
    None
}

/// Copies `data` with the bytes from `start` on overwritten by `patch`.
pub fn overwrite(data: &[u8], start: usize, patch: &[u8]) -> (out: Vec<u8>)
    requires
        start + patch.len() <= data.len(),
    ensures
        out@ == overwritten(data@, start as int, patch@),
{
    let mut out: Vec<u8> = vstd::slice::slice_to_vec(data);
    let mut i: usize = 0;
    while i < patch.len()
        invariant
            i <= patch.len(),
            start + patch.len() <= data.len(),
            out@ == overwritten(data@, start as int, patch@.subrange(0, i as int)),
        decreases patch.len() - i,
    {
        out.set(start + i, patch[i]);
        i += 1;
        assert(out@ =~= overwritten(data@, start as int, patch@.subrange(0, i as int)));
    }
    assert(patch@.subrange(0, i as int) =~= patch@);
    out
}

/// The deep view of a byte vector is its plain view.
pub broadcast proof fn lemma_deep_bytes(bytes: Vec<u8>)
    ensures
        #[trigger] bytes.deep_view() == bytes@,
{
    assert(bytes.deep_view() =~= bytes@);
}

} // verus!
