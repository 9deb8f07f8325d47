//! The durable library of imported books, modelled as a table keyed by the
//! content checksum of the source archive. One row exists per distinct
//! checksum; the row keeps the metadata shown in the library view and the
//! reading progress. The table is the in-memory reference model; mirroring
//! it to durable storage is the embedding application's concern.

use vstd::prelude::*;

verus! {

/// One imported book: metadata, reading progress and the on-disk locations
/// of the managed copy and its cover (empty when there is no cover).
pub struct LibraryEntry {
    pub title: String,
    pub author: String,
    pub checksum: i64,
    pub current_page: i64,
    pub total_pages: i64,
    pub book_path: String,
    pub cover_path: String,
}

/// First row with the given checksum.
pub open spec fn find_entry(s: Seq<LibraryEntry>, crc: i64) -> Option<LibraryEntry>
    decreases s.len(),
{
    if s.len() == 0 {
        None
    } else if s[0].checksum == crc {
        Some(s[0])
    } else {
        find_entry(s.drop_first(), crc)
    }
}

pub open spec fn has_entry(s: Seq<LibraryEntry>, crc: i64) -> bool {
    find_entry(s, crc) is Some
}

/// The reading position stored for a checksum; page 1 when no row exists.
pub open spec fn page_of(s: Seq<LibraryEntry>, crc: i64) -> i64 {
    match find_entry(s, crc) {
        Some(e) => e.current_page,
        None => 1,
    }
}

/// The table after setting the reading position for a checksum: matching
/// rows carry the new page, all other rows are untouched.
pub open spec fn set_page_spec(s: Seq<LibraryEntry>, crc: i64, page: i64) -> Seq<LibraryEntry> {
    Seq::new(
        s.len(),
        |i: int|
            if s[i].checksum == crc {
                LibraryEntry { current_page: page, ..s[i] }
            } else {
                s[i]
            },
    )
}

pub proof fn lemma_find_entry_none_no_key(s: Seq<LibraryEntry>, crc: i64)
    requires
        find_entry(s, crc) is None,
    ensures
        forall|i: int| 0 <= i < s.len() ==> s[i].checksum != crc,
    decreases s.len(),
{
    if s.len() > 0 {
        lemma_find_entry_none_no_key(s.drop_first(), crc);
        assert(forall|i: int| 1 <= i < s.len() ==> s[i] == s.drop_first()[i - 1]);
    }
}

/// Setting the position and then reading it back gives the set value, for
/// any checksum that has a row — whether or not that book is the one open
/// in the active cache, which the table does not even see.
pub proof fn lemma_set_then_get(s: Seq<LibraryEntry>, crc: i64, page: i64)
    requires
        has_entry(s, crc),
    ensures
        page_of(set_page_spec(s, crc, page), crc) == page,
    decreases s.len(),
{
    let t = set_page_spec(s, crc, page);
    if s[0].checksum == crc {
        assert(t[0].current_page == page);
    } else {
        assert(t.drop_first() =~= set_page_spec(s.drop_first(), crc, page));
        lemma_set_then_get(s.drop_first(), crc, page);
    }
}

/// Setting the position of one checksum leaves every other row unchanged.
pub proof fn lemma_set_page_other_rows(s: Seq<LibraryEntry>, crc: i64, page: i64, other: i64)
    requires
        other != crc,
    ensures
        find_entry(set_page_spec(s, crc, page), other) == find_entry(s, other),
    decreases s.len(),
{
    let t = set_page_spec(s, crc, page);
    if s.len() > 0 {
        assert(t[0].checksum == s[0].checksum);
        if s[0].checksum != other {
            assert(t.drop_first() =~= set_page_spec(s.drop_first(), crc, page));
            lemma_set_page_other_rows(s.drop_first(), crc, page, other);
        }
    }
}

/// The table of imported books. Checksums are unique: the checksum is the
/// sole identity by which an already imported book is recognized.
pub struct LibraryTable {
    pub entries: Vec<LibraryEntry>,
}

impl LibraryTable {
    pub open spec fn wf(self) -> bool {
        forall|i: int, j: int|
            0 <= i < j < self.entries@.len() ==> self.entries@[i].checksum
                != self.entries@[j].checksum
    }

    pub fn new() -> (r: LibraryTable)
        ensures
            r.wf(),
            r.entries@.len() == 0,
    {
        LibraryTable { entries: Vec::new() }
    }

    /// Scan for the row of a checksum.
    pub fn find<'a>(&'a self, crc: i64) -> (r: Option<&'a LibraryEntry>)
        ensures
            match r {
                Some(e) => find_entry(self.entries@, crc) == Some(*e),
                None => find_entry(self.entries@, crc) is None,
            },
    {
        let mut i: usize = 0;
        proof {
            assert(self.entries@.subrange(0, self.entries@.len() as int) =~= self.entries@);
        }
        while i < self.entries.len()
            invariant
                0 <= i <= self.entries@.len(),
                find_entry(self.entries@, crc) == find_entry(
                    self.entries@.subrange(i as int, self.entries@.len() as int),
                    crc,
                ),
            decreases self.entries@.len() - i,
        {
            proof {
                assert(self.entries@.subrange(i as int, self.entries@.len() as int)[0]
                    == self.entries@[i as int]);
                assert(self.entries@.subrange(i as int, self.entries@.len() as int).drop_first()
                    =~= self.entries@.subrange(i + 1, self.entries@.len() as int));
            }
            if self.entries[i].checksum == crc {
                return Some(&self.entries[i]);
            }
            i = i + 1;
        }
        None
    }

    /// Insert the row of a checksum not seen before.
    pub fn insert_new(&mut self, e: LibraryEntry)
        requires
            old(self).wf(),
            !has_entry(old(self).entries@, e.checksum),
        ensures
            final(self).wf(),
            final(self).entries@ == old(self).entries@.push(e),
    {
        proof {
            lemma_find_entry_none_no_key(self.entries@, e.checksum);
        }
        self.entries.push(e);
    }

    /// Store a reading position. A checksum without a row is left as it is:
    /// progress is only tracked for imported books.
    pub fn set_current_page(&mut self, crc: i64, page: i64)
        requires
            old(self).wf(),
        ensures
            final(self).wf(),
            final(self).entries@ == set_page_spec(old(self).entries@, crc, page),
    {
        let ghost s0 = self.entries@;
        let mut i: usize = 0;
        while i < self.entries.len()
            invariant
                0 <= i <= self.entries@.len(),
                self.entries@.len() == s0.len(),
                forall|j: int| 0 <= j < i ==> self.entries@[j] == set_page_spec(s0, crc, page)[j],
                forall|j: int| i <= j < s0.len() ==> self.entries@[j] == s0[j],
            decreases s0.len() - i,
        {
            if self.entries[i].checksum == crc {
                let e = &self.entries[i];
                let updated = LibraryEntry {
                    title: e.title.clone(),
                    author: e.author.clone(),
                    checksum: e.checksum,
                    current_page: page,
                    total_pages: e.total_pages,
                    book_path: e.book_path.clone(),
                    cover_path: e.cover_path.clone(),
                };
                self.entries[i] = updated;
            }
            i = i + 1;
        }
        proof {
            assert(self.entries@ =~= set_page_spec(s0, crc, page));
        }
    }

    /// The stored reading position of a checksum, page 1 when none is.
    pub fn current_page_or_default(&self, crc: i64) -> (r: i64)
        ensures
            r == page_of(self.entries@, crc),
    {
        match self.find(crc) {
            Some(e) => e.current_page,
            None => 1,
        }
    }
}

} // verus!
