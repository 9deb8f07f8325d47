//! Library-wide laws, stated as proof functions over the same spec
//! functions the executable contracts use.

use vstd::prelude::*;

use crate::book::{find_resource, manifest_resolve, ManifestEntry, NormalizedBook};
use crate::checksum::checksum_i64_of;

verus! {

/// Byte-identical archives carry the identical checksum: the fingerprint
/// is a function of the bytes alone, so importing the same archive twice
/// lands on the same library row (the import contract then returns that
/// row unchanged instead of creating a second one).
pub proof fn lemma_checksum_deterministic(b1: Seq<u8>, b2: Seq<u8>)
    requires
        b1 == b2,
    ensures
        checksum_i64_of(b1) == checksum_i64_of(b2),
{
}

/// The counts reported for one book agree: the table of contents lists one
/// pair per page, and the page total stored at import equals both.
pub proof fn lemma_counts_agree(book: NormalizedBook, toc_len: int, total_pages: i64)
    requires
        book.pages@.len() <= i64::MAX as int,
        toc_len == book.pages@.len(),
        total_pages == book.pages@.len() as i64,
    ensures
        toc_len == total_pages as int,
{
}

/// In a well-formed book every page number from 1 to the page count is
/// backed by a resource record, so a page query on an open book can only
/// fail by being out of bounds — never for a missing record; and 0 and
/// `total + 1` are out of bounds.
pub proof fn lemma_page_bounds(book: NormalizedBook, page: int)
    requires
        book.wf(),
    ensures
        1 <= page <= book.pages@.len() ==> find_resource(
            book.resources@,
            book.pages@[page - 1]@,
        ) is Some,
        page == 0 || page == book.pages@.len() + 1 ==> !(1 <= page <= book.pages@.len()),
{
}

/// A book with an empty spine has no servable page at all: every page
/// number, page 1 included, is out of bounds.
pub proof fn lemma_empty_spine_serves_nothing(book: NormalizedBook, page: int)
    requires
        book.pages@.len() == 0,
    ensures
        !(1 <= page <= book.pages@.len()),
{
}

/// Path resolution round-trips: a manifest entry whose internal path no
/// later entry repeats is resolved back to exactly its identifier.
pub proof fn lemma_path_round_trip(m: Seq<ManifestEntry>, i: int)
    requires
        0 <= i < m.len(),
        forall|j: int| i < j < m.len() ==> m[j].path@ != m[i].path@,
    ensures
        manifest_resolve(m, m[i].path@) == Some(m[i].id@),
    decreases m.len(),
{
    if i < m.len() - 1 {
        let m0 = m.drop_last();
        assert(m.last().path@ != m[i].path@);
        assert(m0[i] == m[i]);
        assert forall|j: int| i < j < m0.len() implies m0[j].path@ != m0[i].path@ by {
            assert(m0[j] == m[j]);
        }
        lemma_path_round_trip(m0, i);
    }
}

} // verus!
