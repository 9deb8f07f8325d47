//! Building a `NormalizedBook` out of the raw container listing: the path
//! index inverted from the manifest (last entry wins on duplicate paths),
//! and the resource table covering every spine identifier and every
//! manifest identifier.

use vstd::prelude::*;

use crate::book::{
    content_or_empty, display_title, find_path, find_resource, manifest_has, manifest_mime,
    manifest_resolve, mime_or_empty, spine_content, spine_has, toc_label, unique_path_keys,
    unique_resource_ids, ManifestEntry, NormalizedBook, PathEntry, Resource, ResourceEntry,
    TocEntry, lookup_path, lookup_resource,
};

verus! {

pub proof fn lemma_find_resource_push(rs: Seq<ResourceEntry>, en: ResourceEntry, k: Seq<char>)
    ensures
        find_resource(rs.push(en), k) == (if find_resource(rs, k) is Some {
            find_resource(rs, k)
        } else if en.id@ == k {
            Some(en.res)
        } else {
            None
        }),
    decreases rs.len(),
{
    if rs.len() == 0 {
        assert(rs.push(en).drop_first() =~= Seq::<ResourceEntry>::empty());
    } else {
        assert(rs.push(en).drop_first() =~= rs.drop_first().push(en));
        lemma_find_resource_push(rs.drop_first(), en, k);
    }
}

pub proof fn lemma_find_resource_none_no_key(rs: Seq<ResourceEntry>, k: Seq<char>)
    requires
        find_resource(rs, k) is None,
    ensures
        forall|i: int| 0 <= i < rs.len() ==> rs[i].id@ != k,
    decreases rs.len(),
{
    if rs.len() > 0 {
        lemma_find_resource_none_no_key(rs.drop_first(), k);
        assert(forall|i: int| 1 <= i < rs.len() ==> rs[i] == rs.drop_first()[i - 1]);
    }
}

pub proof fn lemma_find_path_push(ps: Seq<PathEntry>, en: PathEntry, p: Seq<char>)
    ensures
        find_path(ps.push(en), p) == (if find_path(ps, p) is Some {
            find_path(ps, p)
        } else if en.path@ == p {
            Some(en.id@)
        } else {
            None
        }),
    decreases ps.len(),
{
    if ps.len() == 0 {
        assert(ps.push(en).drop_first() =~= Seq::<PathEntry>::empty());
    } else {
        assert(ps.push(en).drop_first() =~= ps.drop_first().push(en));
        lemma_find_path_push(ps.drop_first(), en, p);
    }
}

pub proof fn lemma_find_path_none_no_key(ps: Seq<PathEntry>, p: Seq<char>)
    requires
        find_path(ps, p) is None,
    ensures
        forall|i: int| 0 <= i < ps.len() ==> ps[i].path@ != p,
    decreases ps.len(),
{
    if ps.len() > 0 {
        lemma_find_path_none_no_key(ps.drop_first(), p);
        assert(forall|i: int| 1 <= i < ps.len() ==> ps[i] == ps.drop_first()[i - 1]);
    }
}

/// Unfolding `manifest_resolve` (defined from the back) at the front.
pub proof fn lemma_resolve_front(m: Seq<ManifestEntry>, p: Seq<char>)
    requires
        m.len() > 0,
    ensures
        manifest_resolve(m, p) == (if manifest_resolve(m.drop_first(), p) is Some {
            manifest_resolve(m.drop_first(), p)
        } else if m[0].path@ == p {
            Some(m[0].id@)
        } else {
            None
        }),
    decreases m.len(),
{
    if m.len() == 1 {
        assert(m.drop_first() =~= Seq::<ManifestEntry>::empty());
        assert(m.last() == m[0]);
    } else {
        let m0 = m.drop_last();
        lemma_resolve_front(m0, p);
        assert(m.drop_first().last() == m.last());
        assert(m.drop_first().drop_last() =~= m0.drop_first());
        assert(m0[0] == m[0]);
    }
}

/// The media type at the first occurrence of an identifier is what
/// `manifest_mime` returns.
pub proof fn lemma_manifest_mime_at(m: Seq<ManifestEntry>, j: int)
    requires
        0 <= j < m.len(),
        forall|i: int| 0 <= i < j ==> m[i].id@ != m[j].id@,
    ensures
        manifest_mime(m, m[j].id@) == Some(m[j].mime@),
    decreases j,
{
    if j > 0 {
        lemma_manifest_mime_at(m.drop_first(), j - 1);
        assert(m.drop_first()[j - 1] == m[j]);
        assert(forall|i: int| 1 <= i < j ==> m.drop_first()[i - 1] == m[i]);
    }
}

/// Every listed identifier has some media type in the manifest.
pub proof fn lemma_manifest_has_index(m: Seq<ManifestEntry>, j: int)
    requires
        0 <= j < m.len(),
    ensures
        manifest_has(m, m[j].id@),
    decreases j,
{
    if j > 0 && m[0].id@ != m[j].id@ {
        lemma_manifest_has_index(m.drop_first(), j - 1);
        assert(m.drop_first()[j - 1] == m[j]);
    }
}

/// When `i` is the last spine occurrence of its identifier, the stored
/// content comes from index `i`.
pub proof fn lemma_spine_content_at(spine: Seq<String>, contents: Seq<Option<String>>, i: int)
    requires
        contents.len() == spine.len(),
        0 <= i < spine.len(),
        forall|j: int| i < j < spine.len() ==> spine[j]@ != spine[i]@,
    ensures
        spine_content(spine, contents, spine[i]@) == content_or_empty(contents[i]),
    decreases spine.len(),
{
    if i < spine.len() - 1 {
        let s0 = spine.drop_last();
        let c0 = contents.subrange(0, spine.len() - 1);
        assert(spine.last()@ != spine[i]@);
        assert(s0[i] == spine[i]);
        assert(c0[i] == contents[i]);
        lemma_spine_content_at(s0, c0, i);
    }
}

/// Invert the manifest into a path index. When the manifest lists one
/// internal path under several identifiers, the last entry wins (the
/// iteration order of the underlying container listing; kept as a
/// documented policy).
pub fn build_path_index(m: &Vec<ManifestEntry>) -> (r: Vec<PathEntry>)
    ensures
        unique_path_keys(r@),
        forall|p: Seq<char>| #[trigger] find_path(r@, p) == manifest_resolve(m@, p),
        forall|k: int| 0 <= k < r@.len() ==> manifest_has(m@, #[trigger] r@[k].id@),
{
    let ghost len = m@.len() as int;
    let mut r: Vec<PathEntry> = Vec::new();
    let mut i: usize = m.len();
    proof {
        assert(m@.subrange(len, len) =~= Seq::<ManifestEntry>::empty());
    }
    while i > 0
        invariant
            0 <= i <= m@.len(),
            unique_path_keys(r@),
            forall|p: Seq<char>| #[trigger] find_path(r@, p) == manifest_resolve(
                m@.subrange(i as int, m@.len() as int),
                p,
            ),
            forall|k: int|
                0 <= k < r@.len() ==> exists|j: int|
                    i <= j < m@.len() && m@[j].id@ == #[trigger] r@[k].id@ && m@[j].path@
                        == r@[k].path@,
        decreases i,
    {
        i = i - 1;
        let e = &m[i];
        let ghost sub = m@.subrange(i as int, m@.len() as int);
        let ghost sub1 = m@.subrange(i + 1, m@.len() as int);
        proof {
            assert(sub.drop_first() =~= sub1);
            assert(sub[0] == m@[i as int]);
            lemma_resolve_front(sub, e.path@);
        }
        let found = lookup_path(&r, &e.path);
        if found.is_none() {
            let ghost old_r = r@;
            proof {
                lemma_find_path_none_no_key(old_r, e.path@);
            }
            r.push(PathEntry { path: e.path.clone(), id: e.id.clone() });
            proof {
                assert forall|p: Seq<char>| #[trigger] find_path(r@, p) == manifest_resolve(
                    sub,
                    p,
                ) by {
                    lemma_find_path_push(old_r, r@.last(), p);
                    lemma_resolve_front(sub, p);
                }
                assert(forall|k: int| 0 <= k < old_r.len() ==> r@[k] == old_r[k]);
            }
        } else {
            proof {
                assert forall|p: Seq<char>| #[trigger] find_path(r@, p) == manifest_resolve(
                    sub,
                    p,
                ) by {
                    lemma_resolve_front(sub, p);
                }
            }
        }
    }
    proof {
        assert(m@.subrange(0, m@.len() as int) =~= m@);
        assert forall|k: int| 0 <= k < r@.len() implies manifest_has(m@, #[trigger] r@[k].id@) by {
            let j = choose|j: int|
                0 <= j < m@.len() && m@[j].id@ == r@[k].id@ && m@[j].path@ == r@[k].path@;
            lemma_manifest_has_index(m@, j);
        }
    }
    r
}

/// Scan the manifest for the media type of an identifier.
pub fn lookup_mime(m: &Vec<ManifestEntry>, id: &String) -> (r: Option<String>)
    ensures
        match r {
            Some(s) => manifest_mime(m@, id@) == Some(s@),
            None => manifest_mime(m@, id@) is None,
        },
{
    let mut i: usize = 0;
    proof {
        assert(m@.subrange(0, m@.len() as int) =~= m@);
    }
    while i < m.len()
        invariant
            0 <= i <= m@.len(),
            manifest_mime(m@, id@) == manifest_mime(m@.subrange(i as int, m@.len() as int), id@),
        decreases m@.len() - i,
    {
        let e = &m[i];
        proof {
            assert(m@.subrange(i as int, m@.len() as int)[0] == m@[i as int]);
            assert(m@.subrange(i as int, m@.len() as int).drop_first() =~= m@.subrange(
                i + 1,
                m@.len() as int,
            ));
        }
        if e.id == *id {
            return Some(e.mime.clone());
        }
        i = i + 1;
    }
    None
}

/// The label of the last TOC entry whose path resolves to this identifier.
pub fn lookup_label(toc: &Vec<TocEntry>, ps: &Vec<PathEntry>, id: &String) -> (r: Option<String>)
    ensures
        match r {
            Some(s) => toc_label(toc@, ps@, id@) == Some(s@),
            None => toc_label(toc@, ps@, id@) is None,
        },
{
    let mut i: usize = toc.len();
    proof {
        assert(toc@.subrange(0, toc@.len() as int) =~= toc@);
    }
    while i > 0
        invariant
            0 <= i <= toc@.len(),
            toc_label(toc@, ps@, id@) == toc_label(toc@.subrange(0, i as int), ps@, id@),
        decreases i,
    {
        i = i - 1;
        let e = &toc[i];
        proof {
            assert(toc@.subrange(0, i + 1).last() == toc@[i as int]);
            assert(toc@.subrange(0, i + 1).drop_last() =~= toc@.subrange(0, i as int));
        }
        let resolved = lookup_path(ps, &e.path);
        match resolved {
            Some(rid) => {
                if *rid == *id {
                    return Some(e.label.clone());
                }
            },
            None => {},
        }
    }
    None
}

pub proof fn lemma_manifest_mime_push(m: Seq<ManifestEntry>, e: ManifestEntry, k: Seq<char>)
    ensures
        manifest_mime(m.push(e), k) == (if manifest_mime(m, k) is Some {
            manifest_mime(m, k)
        } else if e.id@ == k {
            Some(e.mime@)
        } else {
            None
        }),
    decreases m.len(),
{
    if m.len() == 0 {
        assert(m.push(e).drop_first() =~= Seq::<ManifestEntry>::empty());
    } else {
        assert(m.push(e).drop_first() =~= m.drop_first().push(e));
        lemma_manifest_mime_push(m.drop_first(), e, k);
    }
}

pub proof fn lemma_manifest_mime_none_no_key(m: Seq<ManifestEntry>, k: Seq<char>)
    requires
        manifest_mime(m, k) is None,
    ensures
        forall|i: int| 0 <= i < m.len() ==> m[i].id@ != k,
    decreases m.len(),
{
    if m.len() > 0 {
        lemma_manifest_mime_none_no_key(m.drop_first(), k);
        assert(forall|i: int| 1 <= i < m.len() ==> m[i] == m.drop_first()[i - 1]);
    }
}

/// The display title for an identifier: its TOC label, else the identifier.
pub fn title_for(toc: &Vec<TocEntry>, ps: &Vec<PathEntry>, id: &String) -> (r: String)
    ensures
        r@ == display_title(toc@, ps@, id@),
{
    match lookup_label(toc, ps, id) {
        Some(l) => l,
        None => id.clone(),
    }
}

/// What the resource table must hold for an identifier `k`: a record for
/// every spine identifier (content from its last spine occurrence) and for
/// every manifest identifier (empty content), and nothing else. The title
/// is the TOC label when one resolves to `k`, else `k` itself; the media
/// type comes from the manifest, empty when the manifest does not list `k`.
pub open spec fn materialized_entry(
    spine: Seq<String>,
    contents: Seq<Option<String>>,
    m: Seq<ManifestEntry>,
    toc: Seq<TocEntry>,
    ps: Seq<PathEntry>,
    k: Seq<char>,
    r: Option<Resource>,
) -> bool {
    r matches Some(res) && res.title@ == display_title(toc, ps, k) && res.mime@ == mime_or_empty(
        m,
        k,
    ) && res.content@ == spine_content(spine, contents, k)
}

pub open spec fn placeholder_entry(
    m: Seq<ManifestEntry>,
    toc: Seq<TocEntry>,
    ps: Seq<PathEntry>,
    k: Seq<char>,
    r: Option<Resource>,
) -> bool {
    r matches Some(res) && res.title@ == display_title(toc, ps, k) && res.mime@ == mime_or_empty(
        m,
        k,
    ) && res.content@ == Seq::<char>::empty()
}

pub open spec fn resource_entry_spec(
    spine: Seq<String>,
    contents: Seq<Option<String>>,
    m: Seq<ManifestEntry>,
    toc: Seq<TocEntry>,
    ps: Seq<PathEntry>,
    k: Seq<char>,
    r: Option<Resource>,
) -> bool {
    if spine_has(spine, k) {
        materialized_entry(spine, contents, m, toc, ps, k, r)
    } else if manifest_has(m, k) {
        placeholder_entry(m, toc, ps, k, r)
    } else {
        r is None
    }
}

/// Build the resource table: one record per spine identifier, materialized
/// from the extracted contents, plus a placeholder record for every other
/// manifest identifier.
pub fn build_resources(
    spine: &Vec<String>,
    contents: &Vec<Option<String>>,
    m: &Vec<ManifestEntry>,
    toc: &Vec<TocEntry>,
    ps: &Vec<PathEntry>,
) -> (r: Vec<ResourceEntry>)
    requires
        contents@.len() == spine@.len(),
    ensures
        unique_resource_ids(r@),
        forall|k: Seq<char>|
            resource_entry_spec(
                spine@,
                contents@,
                m@,
                toc@,
                ps@,
                k,
                #[trigger] find_resource(r@, k),
            ),
{
    let ghost slen = spine@.len() as int;
    let mut cur: Vec<ResourceEntry> = Vec::new();
    let mut i: usize = spine.len();
    proof {
        assert(spine@.subrange(slen, slen) =~= Seq::<String>::empty());
    }
    while i > 0
        invariant
            0 <= i <= spine@.len(),
            contents@.len() == spine@.len(),
            unique_resource_ids(cur@),
            forall|k: Seq<char>|
                spine_has(spine@.subrange(i as int, spine@.len() as int), k)
                    ==> materialized_entry(
                    spine@,
                    contents@,
                    m@,
                    toc@,
                    ps@,
                    k,
                    #[trigger] find_resource(cur@, k),
                ),
            forall|k: Seq<char>|
                !spine_has(spine@.subrange(i as int, spine@.len() as int), k) ==> (
                #[trigger] find_resource(cur@, k)) is None,
        decreases i,
    {
        i = i - 1;
        let e = &spine[i];
        let ghost sub = spine@.subrange(i as int, spine@.len() as int);
        let ghost sub1 = spine@.subrange(i + 1, spine@.len() as int);
        proof {
            assert(sub.drop_first() =~= sub1);
            assert(sub[0] == spine@[i as int]);
            assert forall|k: Seq<char>| spine_has(sub, k) <==> (k == spine@[i as int]@
                || spine_has(sub1, k)) by {
                if spine_has(sub, k) {
                    let idx = choose|idx: int| 0 <= idx < sub.len() && sub[idx]@ == k;
                    if idx > 0 {
                        assert(sub1[idx - 1] == sub[idx]);
                    }
                }
                if spine_has(sub1, k) {
                    let idx = choose|idx: int| 0 <= idx < sub1.len() && sub1[idx]@ == k;
                    assert(sub[idx + 1] == sub1[idx]);
                }
            }
        }
        if lookup_resource(&cur, e).is_none() {
            proof {
                lemma_find_resource_none_no_key(cur@, e@);
                assert(!spine_has(sub1, e@));
                assert forall|j: int| i < j < spine@.len() implies spine@[j]@ != spine@[i as int]@
                    by {
                    assert(sub1[j - i - 1] == spine@[j]);
                }
                lemma_spine_content_at(spine@, contents@, i as int);
            }
            let title = title_for(toc, ps, e);
            let mime = match lookup_mime(m, e) {
                Some(s) => s,
                None => String::new(),
            };
            let content = match &contents[i] {
                Some(c) => c.clone(),
                None => String::new(),
            };
            let ghost old_r = cur@;
            cur.push(ResourceEntry { id: e.clone(), res: Resource { title, mime, content } });
            proof {
                let en = cur@.last();
                assert(cur@ =~= old_r.push(en));
                assert forall|k: Seq<char>| #[trigger] find_resource(cur@, k) == (if k == e@ {
                    Some(en.res)
                } else {
                    find_resource(old_r, k)
                }) by {
                    lemma_find_resource_push(old_r, en, k);
                }
                assert(forall|j: int| 0 <= j < old_r.len() ==> cur@[j] == old_r[j]);
            }
        } else {
            proof {
                assert(spine_has(sub1, e@));
            }
        }
    }
    proof {
        assert(spine@.subrange(0, slen) =~= spine@);
    }
    // Placeholder records for manifest identifiers outside the spine.
    let mut j: usize = 0;
    proof {
        assert(m@.subrange(0, 0) =~= Seq::<ManifestEntry>::empty());
    }
    while j < m.len()
        invariant
            0 <= j <= m@.len(),
            unique_resource_ids(cur@),
            forall|k: Seq<char>|
                spine_has(spine@, k) ==> materialized_entry(
                    spine@,
                    contents@,
                    m@,
                    toc@,
                    ps@,
                    k,
                    #[trigger] find_resource(cur@, k),
                ),
            forall|k: Seq<char>|
                !spine_has(spine@, k) && manifest_has(m@.subrange(0, j as int), k)
                    ==> placeholder_entry(
                    m@,
                    toc@,
                    ps@,
                    k,
                    #[trigger] find_resource(cur@, k),
                ),
            forall|k: Seq<char>|
                !spine_has(spine@, k) && !manifest_has(m@.subrange(0, j as int), k) ==> (
                #[trigger] find_resource(cur@, k)) is None,
        decreases m@.len() - j,
    {
        let e = &m[j];
        let ghost takej = m@.subrange(0, j as int);
        let ghost takej1 = m@.subrange(0, j + 1);
        proof {
            assert(takej1 =~= takej.push(m@[j as int]));
            assert forall|k: Seq<char>| #[trigger] manifest_mime(takej1, k) == (if manifest_mime(
                takej,
                k,
            ) is Some {
                manifest_mime(takej, k)
            } else if m@[j as int].id@ == k {
                Some(m@[j as int].mime@)
            } else {
                None
            }) by {
                lemma_manifest_mime_push(takej, m@[j as int], k);
            }
        }
        if lookup_resource(&cur, &e.id).is_none() {
            proof {
                lemma_find_resource_none_no_key(cur@, e.id@);
                assert(!spine_has(spine@, e.id@));
                assert(!manifest_has(takej, e.id@));
                lemma_manifest_mime_none_no_key(takej, e.id@);
                assert forall|i2: int| 0 <= i2 < j implies m@[i2].id@ != m@[j as int].id@ by {
                    assert(takej[i2] == m@[i2]);
                }
                lemma_manifest_mime_at(m@, j as int);
            }
            let title = title_for(toc, ps, &e.id);
            let mime = e.mime.clone();
            let content = String::new();
            let ghost old_r = cur@;
            cur.push(ResourceEntry { id: e.id.clone(), res: Resource { title, mime, content } });
            proof {
                let en = cur@.last();
                assert(cur@ =~= old_r.push(en));
                assert forall|k: Seq<char>| #[trigger] find_resource(cur@, k) == (if k == e.id@ {
                    Some(en.res)
                } else {
                    find_resource(old_r, k)
                }) by {
                    lemma_find_resource_push(old_r, en, k);
                }
                assert(forall|i2: int| 0 <= i2 < old_r.len() ==> cur@[i2] == old_r[i2]);
            }
        }
        j = j + 1;
    }
    proof {
        assert(m@.subrange(0, m@.len() as int) =~= m@);
    }
    cur
}

/// Normalize a raw container listing into a queryable book.
pub fn normalize(
    spine: &Vec<String>,
    contents: &Vec<Option<String>>,
    m: &Vec<ManifestEntry>,
    toc: &Vec<TocEntry>,
    checksum: i64,
) -> (book: NormalizedBook)
    requires
        contents@.len() == spine@.len(),
    ensures
        book.wf(),
        book.checksum == checksum,
        book.pages@.len() == spine@.len(),
        forall|i: int| 0 <= i < spine@.len() ==> book.pages@[i]@ == #[trigger] spine@[i]@,
        forall|p: Seq<char>| #[trigger] find_path(book.path_index@, p) == manifest_resolve(m@, p),
        forall|k: Seq<char>|
            resource_entry_spec(
                spine@,
                contents@,
                m@,
                toc@,
                book.path_index@,
                k,
                #[trigger] find_resource(book.resources@, k),
            ),
{
    let path_index = build_path_index(m);
    let resources = build_resources(spine, contents, m, toc, &path_index);
    let mut pages: Vec<String> = Vec::new();
    let mut i: usize = 0;
    while i < spine.len()
        invariant
            0 <= i <= spine@.len(),
            pages@.len() == i,
            forall|j: int| 0 <= j < i ==> pages@[j]@ == #[trigger] spine@[j]@,
        decreases spine@.len() - i,
    {
        pages.push(spine[i].clone());
        i = i + 1;
    }
    let book = NormalizedBook { pages, resources, path_index, checksum };
    proof {
        assert forall|i2: int| 0 <= i2 < book.pages@.len() implies find_resource(
            book.resources@,
            #[trigger] book.pages@[i2]@,
        ) is Some by {
            assert(spine@[i2]@ == book.pages@[i2]@);
            assert(spine_has(spine@, book.pages@[i2]@));
            assert(resource_entry_spec(
                spine@,
                contents@,
                m@,
                toc@,
                book.path_index@,
                book.pages@[i2]@,
                find_resource(book.resources@, book.pages@[i2]@),
            ));
        }
        assert forall|i2: int| 0 <= i2 < book.path_index@.len() implies find_resource(
            book.resources@,
            #[trigger] book.path_index@[i2].id@,
        ) is Some by {
            assert(manifest_has(m@, book.path_index@[i2].id@));
            assert(resource_entry_spec(
                spine@,
                contents@,
                m@,
                toc@,
                book.path_index@,
                book.path_index@[i2].id@,
                find_resource(book.resources@, book.path_index@[i2].id@),
            ));
        }
    }
    book
}

} // verus!
