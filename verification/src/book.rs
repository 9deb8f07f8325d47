//! The normalized in-memory book model and the lookup structures it is
//! built from.
//!
//! A book is described by three overlapping identifier spaces: the spine
//! (reading order of resource identifiers), the manifest (identifier ->
//! internal path and media type) and the table of contents (display label ->
//! internal path). They are unified here into three explicit indices:
//! `pages` (page number -> identifier), `resources` (identifier -> record)
//! and `path_index` (internal path -> identifier).
//!
//! The index structures are association lists with unique keys; all
//! contracts are stated over first-match lookup functions on their views.

use vstd::prelude::*;

verus! {

/// One resource as the container manifest lists it: identifier, internal
/// path, media type.
pub struct ManifestEntry {
    pub id: String,
    pub path: String,
    pub mime: String,
}

/// One top-level table-of-contents entry: display label and the internal
/// path it points at.
pub struct TocEntry {
    pub label: String,
    pub path: String,
}

/// The materialized record kept for one resource identifier.
pub struct Resource {
    pub title: String,
    pub mime: String,
    pub content: String,
}

/// An entry of the resource table.
pub struct ResourceEntry {
    pub id: String,
    pub res: Resource,
}

/// An entry of the path index.
pub struct PathEntry {
    pub path: String,
    pub id: String,
}

/// First-match lookup in the resource table.
pub open spec fn find_resource(rs: Seq<ResourceEntry>, id: Seq<char>) -> Option<Resource>
    decreases rs.len(),
{
    if rs.len() == 0 {
        None
    } else if rs[0].id@ == id {
        Some(rs[0].res)
    } else {
        find_resource(rs.drop_first(), id)
    }
}

/// First-match lookup in the path index.
pub open spec fn find_path(ps: Seq<PathEntry>, path: Seq<char>) -> Option<Seq<char>>
    decreases ps.len(),
{
    if ps.len() == 0 {
        None
    } else if ps[0].path@ == path {
        Some(ps[0].id@)
    } else {
        find_path(ps.drop_first(), path)
    }
}

/// The identifier the manifest assigns to an internal path. When several
/// manifest entries list the same path, the last one wins.
pub open spec fn manifest_resolve(m: Seq<ManifestEntry>, path: Seq<char>) -> Option<Seq<char>>
    decreases m.len(),
{
    if m.len() == 0 {
        None
    } else if m.last().path@ == path {
        Some(m.last().id@)
    } else {
        manifest_resolve(m.drop_last(), path)
    }
}

/// The media type the manifest assigns to an identifier (identifiers are
/// unique in a manifest, so first match suffices).
pub open spec fn manifest_mime(m: Seq<ManifestEntry>, id: Seq<char>) -> Option<Seq<char>>
    decreases m.len(),
{
    if m.len() == 0 {
        None
    } else if m[0].id@ == id {
        Some(m[0].mime@)
    } else {
        manifest_mime(m.drop_first(), id)
    }
}

pub open spec fn manifest_has(m: Seq<ManifestEntry>, id: Seq<char>) -> bool {
    manifest_mime(m, id) is Some
}

pub open spec fn unique_manifest_ids(m: Seq<ManifestEntry>) -> bool {
    forall|i: int, j: int| 0 <= i < j < m.len() ==> m[i].id@ != m[j].id@
}

pub open spec fn unique_resource_ids(rs: Seq<ResourceEntry>) -> bool {
    forall|i: int, j: int| 0 <= i < j < rs.len() ==> rs[i].id@ != rs[j].id@
}

pub open spec fn unique_path_keys(ps: Seq<PathEntry>) -> bool {
    forall|i: int, j: int| 0 <= i < j < ps.len() ==> ps[i].path@ != ps[j].path@
}

/// Whether an identifier occurs in the spine.
pub open spec fn spine_has(spine: Seq<String>, id: Seq<char>) -> bool {
    exists|i: int| 0 <= i < spine.len() && spine[i]@ == id
}

/// The display label the table of contents gives an identifier: the label
/// of the last TOC entry whose path resolves to that identifier, if any.
pub open spec fn toc_label(toc: Seq<TocEntry>, ps: Seq<PathEntry>, id: Seq<char>) -> Option<
    Seq<char>,
>
    decreases toc.len(),
{
    if toc.len() == 0 {
        None
    } else if find_path(ps, toc.last().path@) == Some(id) {
        Some(toc.last().label@)
    } else {
        toc_label(toc.drop_last(), ps, id)
    }
}

/// The display title of a resource: its TOC label if the TOC references its
/// path, else the identifier itself.
pub open spec fn display_title(toc: Seq<TocEntry>, ps: Seq<PathEntry>, id: Seq<char>) -> Seq<
    char,
> {
    match toc_label(toc, ps, id) {
        Some(l) => l,
        None => id,
    }
}

pub open spec fn mime_or_empty(m: Seq<ManifestEntry>, id: Seq<char>) -> Seq<char> {
    match manifest_mime(m, id) {
        Some(mm) => mm,
        None => Seq::<char>::empty(),
    }
}

pub open spec fn content_or_empty(c: Option<String>) -> Seq<char> {
    match c {
        Some(s) => s@,
        None => Seq::<char>::empty(),
    }
}

/// The content stored for an identifier: what was extracted at its last
/// spine occurrence, or empty when extraction failed there.
pub open spec fn spine_content(
    spine: Seq<String>,
    contents: Seq<Option<String>>,
    id: Seq<char>,
) -> Seq<char>
    recommends
        contents.len() == spine.len(),
    decreases spine.len(),
{
    if spine.len() == 0 {
        Seq::<char>::empty()
    } else if spine.last()@ == id {
        content_or_empty(contents[spine.len() - 1])
    } else {
        spine_content(spine.drop_last(), contents.subrange(0, spine.len() - 1), id)
    }
}

/// A book normalized for querying: `pages` maps 1-based page numbers to
/// identifiers, `resources` maps identifiers to their records, `path_index`
/// maps internal paths to identifiers, and `checksum` is the fingerprint of
/// the source archive bytes.
pub struct NormalizedBook {
    pub pages: Vec<String>,
    pub resources: Vec<ResourceEntry>,
    pub path_index: Vec<PathEntry>,
    pub checksum: i64,
}

impl NormalizedBook {
    /// Well-formedness: keys are unique, every page identifier has a
    /// resource record, and every identifier the path index can produce has
    /// one too, so no lookup behind a successful page or path resolution
    /// can fail.
    pub open spec fn wf(self) -> bool {
        &&& unique_resource_ids(self.resources@)
        &&& unique_path_keys(self.path_index@)
        &&& forall|i: int|
            0 <= i < self.pages@.len() ==> find_resource(
                self.resources@,
                #[trigger] self.pages@[i]@,
            ) is Some
        &&& forall|i: int|
            0 <= i < self.path_index@.len() ==> find_resource(
                self.resources@,
                #[trigger] self.path_index@[i].id@,
            ) is Some
    }
}

/// Scan for the resource record of an identifier.
pub fn lookup_resource<'a>(rs: &'a Vec<ResourceEntry>, id: &String) -> (r: Option<&'a Resource>)
    ensures
        match r {
            Some(res) => find_resource(rs@, id@) == Some(*res),
            None => find_resource(rs@, id@) is None,
        },
{
    let mut i: usize = 0;
    proof {
        assert(rs@.subrange(0, rs@.len() as int) =~= rs@);
    }
    while i < rs.len()
        invariant
            0 <= i <= rs@.len(),
            find_resource(rs@, id@) == find_resource(rs@.subrange(i as int, rs@.len() as int), id@),
        decreases rs@.len() - i,
    {
        let e = &rs[i];
        if e.id == *id {
            proof {
                assert(rs@.subrange(i as int, rs@.len() as int)[0] == rs@[i as int]);
            }
            return Some(&rs[i].res);
        }
        proof {
            assert(rs@.subrange(i as int, rs@.len() as int).drop_first() =~= rs@.subrange(
                i + 1,
                rs@.len() as int,
            ));
        }
        i = i + 1;
    }
    None
}

/// Scan for the identifier of an internal path.
pub fn lookup_path<'a>(ps: &'a Vec<PathEntry>, path: &String) -> (r: Option<&'a String>)
    ensures
        match r {
            Some(id) => find_path(ps@, path@) == Some(id@),
            None => find_path(ps@, path@) is None,
        },
{
    let mut i: usize = 0;
    proof {
        assert(ps@.subrange(0, ps@.len() as int) =~= ps@);
    }
    while i < ps.len()
        invariant
            0 <= i <= ps@.len(),
            find_path(ps@, path@) == find_path(ps@.subrange(i as int, ps@.len() as int), path@),
        decreases ps@.len() - i,
    {
        let e = &ps[i];
        if e.path == *path {
            proof {
                assert(ps@.subrange(i as int, ps@.len() as int)[0] == ps@[i as int]);
            }
            return Some(&ps[i].id);
        }
        proof {
            assert(ps@.subrange(i as int, ps@.len() as int).drop_first() =~= ps@.subrange(
                i + 1,
                ps@.len() as int,
            ));
        }
        i = i + 1;
    }
    None
}

} // verus!
