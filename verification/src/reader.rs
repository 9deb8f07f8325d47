//! The reader session: the active-book cache (zero or one normalized book)
//! together with the library table, and every query the front end asks.
//!
//! All queries against the open book fail with `NotLoaded` until an import
//! succeeds; a successful import fully replaces the previously open book.
//! Reading a page also stores the new reading position in the library
//! table, so the position survives reopening the book.

use vstd::prelude::*;

use crate::book::{find_path, find_resource, spine_has, NormalizedBook};
use crate::checksum::{checksum_i64_of, checksum_of_archive};
use crate::introspect::{archive_readable, introspect};
use crate::library::{
    find_entry, has_entry, page_of, set_page_spec, LibraryEntry, LibraryTable,
};
use crate::normalize::normalize;

verus! {

/// Failures of queries against the open book.
#[derive(Debug, Clone, Copy, PartialEq, Eq, Structural)]
pub enum QueryError {
    /// No book has been opened in this session.
    NotLoaded,
    /// The requested page number is outside `1..=total_pages`.
    PageOutOfBounds,
    /// The internal path is not listed in the open book's manifest.
    UnknownPath,
}

/// Failures that abort an import with no state changed.
#[derive(Debug)]
pub enum ImportError {
    /// The file name does not end in the expected archive extension.
    InvalidExtension,
    /// The container could not be parsed; carries the parser's message.
    ContainerUnreadable(String),
}

/// What a page query returns: the display title, media type and content of
/// one spine resource.
#[derive(Debug)]
pub struct PageContent {
    pub title: String,
    pub mime: String,
    pub content: String,
}

/// The metadata an import hands back to the caller.
#[derive(Debug)]
pub struct BookSummary {
    pub cover_url: String,
    pub book_url: String,
    pub checksum: i64,
    pub title: String,
    pub author: String,
    pub current_page: i64,
    pub total_pages: i64,
}

/// A successful import: either a book already in the library was reopened,
/// or a new one was created (with its cover bytes, for the caller to
/// materialize on disk).
#[derive(Debug)]
pub enum ImportOutcome {
    Reopened(BookSummary),
    Created(BookSummary, Option<Vec<u8>>),
}

pub open spec fn summary_matches_entry(s: BookSummary, e: LibraryEntry) -> bool {
    &&& s.title@ == e.title@
    &&& s.author@ == e.author@
    &&& s.checksum == e.checksum
    &&& s.current_page == e.current_page
    &&& s.total_pages == e.total_pages
    &&& s.book_url@ == e.book_path@
    &&& s.cover_url@ == e.cover_path@
}

/// A file name the importer accepts: the archive suffix preceded by a
/// non-empty stem.
pub open spec fn is_epub_name(s: Seq<char>) -> bool {
    s.len() > 5 && s.subrange(s.len() - 5, s.len() as int) == seq!['.', 'e', 'p', 'u', 'b']
}

/// Decide whether a file name carries the archive extension.
pub fn is_epub_file(name: &String) -> (r: bool)
    ensures
        r == is_epub_name(name@),
{
    let s = name.as_str();
    let n = s.unicode_len();
    if n <= 5 {
        return false;
    }
    let ok = s.get_char(n - 5) == '.' && s.get_char(n - 4) == 'e' && s.get_char(n - 3) == 'p'
        && s.get_char(n - 2) == 'u' && s.get_char(n - 1) == 'b';
    proof {
        let tail = name@.subrange(n - 5, n as int);
        let suffix = seq!['.', 'e', 'p', 'u', 'b'];
        if ok {
            assert(tail =~= suffix);
        } else {
            assert(tail.len() == 5);
            assert(tail[0] == name@[n - 5] && tail[1] == name@[n - 4] && tail[2] == name@[n - 3]
                && tail[3] == name@[n - 2] && tail[4] == name@[n - 1]);
            assert(suffix[0] == '.' && suffix[1] == 'e' && suffix[2] == 'p' && suffix[3] == 'u'
                && suffix[4] == 'b');
            assert(tail != suffix);
        }
    }
    ok
}

/// One table-of-contents pair as served for page index `i`: the display
/// title of the resource behind that page, and the page's identifier.
pub open spec fn toc_pair_ok(book: NormalizedBook, i: int, pair: (String, String)) -> bool {
    find_resource(book.resources@, book.pages@[i]@) matches Some(res) && pair.0@ == res.title@
        && pair.1@ == book.pages@[i]@
}

/// The fields a page query serves for the resource record found behind a
/// page identifier.
pub open spec fn page_matches_resource(book: NormalizedBook, page: int, pc: PageContent) -> bool {
    find_resource(book.resources@, book.pages@[page - 1]@) matches Some(res) && pc.title@
        == res.title@ && pc.mime@ == res.mime@ && pc.content@ == res.content@
}

/// The 1-based page number served for an identifier: the first spine
/// position holding it, or page 1 as the documented permissive fallback
/// when the identifier is on no page.
pub open spec fn first_index_of(pages: Seq<String>, id: Seq<char>) -> int
    decreases pages.len(),
{
    if pages.len() == 0 {
        0
    } else if pages[0]@ == id {
        0
    } else {
        1 + first_index_of(pages.drop_first(), id)
    }
}

pub open spec fn page_number_of(pages: Seq<String>, id: Seq<char>) -> int {
    if spine_has(pages, id) {
        1 + first_index_of(pages, id)
    } else {
        1
    }
}

proof fn lemma_first_index_of_at(pages: Seq<String>, id: Seq<char>, i: int)
    requires
        0 <= i < pages.len(),
        pages[i]@ == id,
        forall|j: int| 0 <= j < i ==> pages[j]@ != id,
    ensures
        first_index_of(pages, id) == i,
    decreases pages.len(),
{
    if i > 0 {
        lemma_first_index_of_at(pages.drop_first(), id, i - 1);
        assert(forall|j: int| 1 <= j < pages.len() ==> pages[j] == pages.drop_first()[j - 1]);
    }
}

/// The reader session: the single active book and the library table.
pub struct Reader {
    pub active: Option<NormalizedBook>,
    pub library: LibraryTable,
}

impl Reader {
    pub open spec fn wf(self) -> bool {
        &&& self.library.wf()
        &&& (self.active matches Some(b) ==> b.wf())
    }

    /// A fresh session: nothing loaded, empty library.
    pub fn new() -> (r: Reader)
        ensures
            r.wf(),
            r.active is None,
            r.library.entries@.len() == 0,
    {
        Reader { active: None, library: LibraryTable::new() }
    }

    /// Serve a page of the open book and store the new reading position
    /// for it in the library table.
    pub fn get_page(&mut self, page: usize) -> (r: Result<PageContent, QueryError>)
        requires
            old(self).wf(),
        ensures
            final(self).wf(),
            final(self).active == old(self).active,
            old(self).active is None ==> r == Err::<PageContent, QueryError>(QueryError::NotLoaded)
                && final(self).library == old(self).library,
            (old(self).active matches Some(b) && !(1 <= page <= b.pages@.len())) ==> r
                == Err::<PageContent, QueryError>(QueryError::PageOutOfBounds)
                && final(self).library == old(self).library,
            old(self).active is Some && 1 <= page <= old(self).active->0.pages@.len() ==> ({
                &&& r matches Ok(pc)
                &&& page_matches_resource(old(self).active->0, page as int, pc)
                &&& final(self).library.entries@ == set_page_spec(
                    old(self).library.entries@,
                    old(self).active->0.checksum,
                    page as i64,
                )
            }),
    {
        let crc: i64;
        let content: PageContent;
        match &self.active {
            None => {
                return Err(QueryError::NotLoaded);
            },
            Some(book) => {
                if page < 1 || page > book.pages.len() {
                    return Err(QueryError::PageOutOfBounds);
                }
                let idref = &book.pages[page - 1];
                match crate::book::lookup_resource(&book.resources, idref) {
                    Some(res) => {
                        content = PageContent {
                            title: res.title.clone(),
                            mime: res.mime.clone(),
                            content: res.content.clone(),
                        };
                        crc = book.checksum;
                    },
                    None => {
                        proof {
                            assert(false);
                        }
                        return Err(QueryError::PageOutOfBounds);
                    },
                }
            },
        }
        self.library.set_current_page(crc, page as i64);
        Ok(content)
    }

    /// The full table of contents of the open book: one (display title,
    /// identifier) pair per page, in spine order.
    pub fn get_toc(&self) -> (r: Result<Vec<(String, String)>, QueryError>)
        requires
            self.wf(),
        ensures
            self.active is None ==> r == Err::<Vec<(String, String)>, QueryError>(
                QueryError::NotLoaded,
            ),
            self.active matches Some(b) ==> ({
                &&& r matches Ok(v)
                &&& v@.len() == b.pages@.len()
                &&& forall|i: int| 0 <= i < v@.len() ==> toc_pair_ok(b, i, #[trigger] v@[i])
            }),
    {
        let book = match &self.active {
            None => {
                return Err(QueryError::NotLoaded);
            },
            Some(b) => b,
        };
        let mut v: Vec<(String, String)> = Vec::new();
        let mut i: usize = 0;
        while i < book.pages.len()
            invariant
                book.wf(),
                0 <= i <= book.pages@.len(),
                v@.len() == i,
                forall|j: int| 0 <= j < i ==> toc_pair_ok(*book, j, #[trigger] v@[j]),
            decreases book.pages@.len() - i,
        {
            let idref = &book.pages[i];
            match crate::book::lookup_resource(&book.resources, idref) {
                Some(res) => {
                    v.push((res.title.clone(), idref.clone()));
                },
                None => {
                    proof {
                        assert(false);
                    }
                },
            }
            i = i + 1;
        }
        Ok(v)
    }

    /// The 1-based page number of an identifier, with the documented
    /// fallback to page 1 for an identifier on no page.
    pub fn page_for_identifier(&self, id: &String) -> (r: Result<usize, QueryError>)
        requires
            self.wf(),
        ensures
            self.active is None ==> r == Err::<usize, QueryError>(QueryError::NotLoaded),
            self.active matches Some(b) ==> ({
                &&& r matches Ok(n)
                &&& n == page_number_of(b.pages@, id@)
            }),
    {
        let book = match &self.active {
            None => {
                return Err(QueryError::NotLoaded);
            },
            Some(b) => b,
        };
        let mut i: usize = 0;
        while i < book.pages.len()
            invariant
                self.active == Some(*book),
                0 <= i <= book.pages@.len(),
                forall|j: int| 0 <= j < i ==> (#[trigger] book.pages@[j]@) != id@,
            decreases book.pages@.len() - i,
        {
            if book.pages[i] == *id {
                proof {
                    lemma_first_index_of_at(book.pages@, id@, i as int);
                    assert(spine_has(book.pages@, id@));
                }
                return Ok(i + 1);
            }
            i = i + 1;
        }
        proof {
            assert(!spine_has(book.pages@, id@));
        }
        Ok(1)
    }

    /// The identifier the open book's manifest lists for an internal path.
    pub fn identifier_for_path(&self, path: &String) -> (r: Result<String, QueryError>)
        requires
            self.wf(),
        ensures
            self.active is None ==> r == Err::<String, QueryError>(QueryError::NotLoaded),
            self.active matches Some(b) ==> (match find_path(b.path_index@, path@) {
                Some(id) => r matches Ok(s) && s@ == id,
                None => r == Err::<String, QueryError>(QueryError::UnknownPath),
            }),
    {
        let book = match &self.active {
            None => {
                return Err(QueryError::NotLoaded);
            },
            Some(b) => b,
        };
        match crate::book::lookup_path(&book.path_index, path) {
            Some(id) => Ok(id.clone()),
            None => Err(QueryError::UnknownPath),
        }
    }

    /// The stored reading position for a checksum, page 1 when the library
    /// has no row for it — independent of which book is open.
    pub fn get_last_page(&self, crc: i64) -> (r: i64)
        ensures
            r == page_of(self.library.entries@, crc),
    {
        self.library.current_page_or_default(crc)
    }

    /// Store a reading position for a checksum — independent of which book
    /// is open. A checksum without a row is left as it is.
    pub fn set_last_page(&mut self, crc: i64, page: i64)
        requires
            old(self).wf(),
        ensures
            final(self).wf(),
            final(self).active == old(self).active,
            final(self).library.entries@ == set_page_spec(old(self).library.entries@, crc, page),
    {
        self.library.set_current_page(crc, page);
    }

    /// All library rows, for the library view.
    pub fn library_entries(&self) -> (r: &Vec<LibraryEntry>)
        ensures
            r@ == self.library.entries@,
    {
        &self.library.entries
    }

    /// Import an archive. The checksum of the bytes decides: a known
    /// checksum is a re-open (the stored row is returned unchanged and no
    /// second row is created), an unknown one creates a fresh row with the
    /// reading position at page 1. Either way the parsed book replaces the
    /// active one; on any error nothing is changed at all.
    pub fn import_archive(
        &mut self,
        file_name: &String,
        stem: &String,
        bytes: Vec<u8>,
        book_path: &String,
        cover_path: &String,
    ) -> (r: Result<ImportOutcome, ImportError>)
        requires
            old(self).wf(),
        ensures
            final(self).wf(),
            r is Err ==> *final(self) == *old(self),
            !has_entry(old(self).library.entries@, checksum_i64_of(bytes@)) ==> ((
            r matches Err(e) && e is InvalidExtension) <==> !is_epub_name(file_name@)),
            has_entry(old(self).library.entries@, checksum_i64_of(bytes@)) ==> !(r matches Err(e)
                && e is InvalidExtension),
            (has_entry(old(self).library.entries@, checksum_i64_of(bytes@)) || is_epub_name(
                file_name@,
            )) ==> (r is Ok <==> archive_readable(bytes@)),
            r is Ok ==> ({
                &&& final(self).active matches Some(b)
                &&& b.wf()
                &&& b.checksum == checksum_i64_of(bytes@)
            }),
            (r is Ok && has_entry(old(self).library.entries@, checksum_i64_of(bytes@))) ==> ({
                &&& final(self).library == old(self).library
                &&& r matches Ok(out)
                &&& out matches ImportOutcome::Reopened(s)
                &&& find_entry(old(self).library.entries@, checksum_i64_of(bytes@)) matches Some(e)
                    && summary_matches_entry(s, e)
            }),
            (r is Ok && !has_entry(old(self).library.entries@, checksum_i64_of(bytes@))) ==> ({
                &&& final(self).library.entries@.len() == old(self).library.entries@.len() + 1
                &&& final(self).library.entries@ == old(self).library.entries@.push(
                    final(self).library.entries@.last(),
                )
                &&& r matches Ok(out)
                &&& out matches ImportOutcome::Created(s, cover)
                &&& final(self).active matches Some(b)
                &&& ({
                    let e = final(self).library.entries@.last();
                    &&& summary_matches_entry(s, e)
                    &&& e.checksum == checksum_i64_of(bytes@)
                    &&& e.current_page == 1
                    &&& e.total_pages == b.pages@.len() as i64
                    &&& e.book_path@ == book_path@
                    &&& (cover is Some ==> e.cover_path@ == cover_path@)
                    &&& (cover is None ==> e.cover_path@ == Seq::<char>::empty())
                })
            }),
    {
        let crc = checksum_of_archive(&bytes);
        let found: Option<BookSummary> = match self.library.find(crc) {
            Some(e) => Some(
                BookSummary {
                    cover_url: e.cover_path.clone(),
                    book_url: e.book_path.clone(),
                    checksum: e.checksum,
                    title: e.title.clone(),
                    author: e.author.clone(),
                    current_page: e.current_page,
                    total_pages: e.total_pages,
                },
            ),
            None => None,
        };
        match found {
            Some(summary) => {
                let raw = match introspect(bytes) {
                    Ok(raw) => raw,
                    Err(msg) => {
                        return Err(ImportError::ContainerUnreadable(msg));
                    },
                };
                let book = normalize(&raw.spine, &raw.contents, &raw.manifest, &raw.toc, crc);
                self.active = Some(book);
                Ok(ImportOutcome::Reopened(summary))
            },
            None => {
                if !is_epub_file(file_name) {
                    return Err(ImportError::InvalidExtension);
                }
                let raw = match introspect(bytes) {
                    Ok(raw) => raw,
                    Err(msg) => {
                        return Err(ImportError::ContainerUnreadable(msg));
                    },
                };
                let book = normalize(&raw.spine, &raw.contents, &raw.manifest, &raw.toc, crc);
                let title = title_or_stem(raw.title, stem);
                let author = author_or_unknown(raw.author);
                let cover_url = if raw.cover.is_some() {
                    cover_path.clone()
                } else {
                    String::new()
                };
                let total = book.pages.len() as i64;
                let entry = LibraryEntry {
                    title: title.clone(),
                    author: author.clone(),
                    checksum: crc,
                    current_page: 1,
                    total_pages: total,
                    book_path: book_path.clone(),
                    cover_path: cover_url.clone(),
                };
                self.library.insert_new(entry);
                self.active = Some(book);
                let summary = BookSummary {
                    cover_url,
                    book_url: book_path.clone(),
                    checksum: crc,
                    title,
                    author,
                    current_page: 1,
                    total_pages: total,
                };
                Ok(ImportOutcome::Created(summary, raw.cover))
            },
        }
    }
}

/// The title stored for a fresh import: the container metadata's title
/// when one is present, else the source file's name stem.
pub fn title_or_stem(meta_title: Option<String>, stem: &String) -> (r: String)
    ensures
        meta_title matches Some(t) ==> r@ == t@,
        meta_title is None ==> r@ == stem@,
{
    match meta_title {
        Some(t) => t,
        None => stem.clone(),
    }
}

/// The author stored for a fresh import: the container metadata's creator
/// when one is present, else the fixed sentinel.
pub fn author_or_unknown(meta_creator: Option<String>) -> (r: String)
    ensures
        meta_creator matches Some(a) ==> r@ == a@,
        meta_creator is None ==> r@ == seq!['<', 'u', 'n', 'k', 'n', 'o', 'w', 'n', '>'],
{
    match meta_creator {
        Some(a) => a,
        None => unknown_author(),
    }
}

/// The sentinel shown when the container metadata names no creator.
pub fn unknown_author() -> (r: String)
    ensures
        r@ == seq!['<', 'u', 'n', 'k', 'n', 'o', 'w', 'n', '>'],
{
    let r = "<unknown>".to_string();
    proof {
        reveal_strlit("<unknown>");
        assert(r@ =~= seq!['<', 'u', 'n', 'k', 'n', 'o', 'w', 'n', '>']);
    }
    r
}

} // verus!
