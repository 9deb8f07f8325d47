//! The container introspector: the trusted boundary to the `epub` crate.
//!
//! Each wrapper calls into the crate and converts the outcome to plain
//! values. Nothing is promised about the parsed document beyond what the
//! crate's source shows of every outcome (the manifest is walked in no
//! fixed order, so only key uniqueness is stated); success of the parse
//! is a function of the bytes alone and is named, so the contracts above
//! can say when an import is owed. Everything the library concludes about
//! a book is proved downstream by verified code that takes these values
//! as arguments.

use vstd::prelude::*;

use crate::book::{unique_manifest_ids, ManifestEntry, TocEntry};
use crate::container::{check_container_root, container_root_safe};

verus! {

/// Whether `EpubDoc::from_reader` parses these archive bytes. The zip and
/// XML decoding behind it is deterministic, so success is a function of
/// the bytes alone; only the manifest's iteration order is not, and no
/// contract speaks of that order.
pub uninterp spec fn epub_parse_ok(bytes: Seq<u8>) -> bool;

/// The raw bytes of the container declaration (`META-INF/container.xml`)
/// inside the archive bytes, or nothing when the archive or that entry
/// cannot be read — again a function of the bytes alone.
pub uninterp spec fn container_file_of(bytes: Seq<u8>) -> Option<Seq<u8>>;

/// An archive this library reads: its container declaration, if it has
/// one, passes the rootless-path screen (the one shape of container the
/// parser would crash on), and the parser accepts the bytes.
pub open spec fn archive_readable(bytes: Seq<u8>) -> bool {
    &&& (container_file_of(bytes) matches Some(c) ==> container_root_safe(c))
    &&& epub_parse_ok(bytes)
}

/// Relies on `EpubArchive::from_reader` and `EpubArchive::get_container_file`:
/// the container declaration's bytes, extracted from the archive, `None`
/// when the archive or the entry cannot be read.
#[verifier::external_body]
fn container_file(bytes: &Vec<u8>) -> (r: Option<Vec<u8>>)
    ensures
        r matches Some(c) ==> container_file_of(bytes@) == Some(c@),
        r is None ==> container_file_of(bytes@) is None,
{
    epub::archive::EpubArchive::from_reader(std::io::Cursor::new(bytes.clone())).ok().and_then(
        |mut archive| archive.get_container_file().ok(),
    )
}

/// An opened container. The parsed document is held opaquely (its type,
/// `epub::doc::EpubDoc`, carries trait bounds Verus does not accept in a
/// type declaration): Verus sees nothing inside a value of this struct,
/// and every read goes through one of the wrappers below.
#[verifier::external_body]
pub struct Archive {
    inner: epub::doc::EpubDoc<std::io::Cursor<Vec<u8>>>,
}

/// Relies on `EpubDoc::from_reader`: parses the container held in the
/// bytes; the error message of a container that cannot be parsed is handed
/// back as a string. Success is a function of the bytes alone, named
/// `epub_parse_ok`. The precondition keeps out the one family of inputs
/// on which `from_reader` would panic instead of erring: an archive whose
/// container declaration could resolve to a rootless package path.
#[verifier::external_body]
fn parse_container(bytes: Vec<u8>) -> (r: Result<Archive, String>)
    requires
        container_file_of(bytes@) matches Some(c) ==> container_root_safe(c),
    ensures
        r is Ok <==> epub_parse_ok(bytes@),
{
    match epub::doc::EpubDoc::from_reader(std::io::Cursor::new(bytes)) {
        Ok(doc) => Ok(Archive { inner: doc }),
        Err(e) => Err(format!("{}", e)),
    }
}

/// Relies on the `spine` field of `EpubDoc`: the resource identifiers in
/// reading order.
#[verifier::external_body]
fn spine_of(doc: &Archive) -> (r: Vec<String>) {
    doc.inner.spine.iter().map(|s| s.idref.clone()).collect()
}

/// Relies on the `resources` field of `EpubDoc`: identifier, internal path
/// and media type of every manifest resource. The underlying map is walked
/// in no fixed order, but its keys are unique.
#[verifier::external_body]
fn manifest_of(doc: &Archive) -> (r: Vec<ManifestEntry>)
    ensures
        unique_manifest_ids(r@),
{
    doc.inner.resources.iter().map(
        |entry: (&String, &epub::doc::ResourceItem)|
            ManifestEntry {
                id: entry.0.clone(),
                path: entry.1.path.to_string_lossy().into_owned(),
                mime: entry.1.mime.clone(),
            },
    ).collect()
}

/// Relies on the `toc` field of `EpubDoc`: label and target path of each
/// top-level navigation entry, in document order.
#[verifier::external_body]
fn toc_of(doc: &Archive) -> (r: Vec<TocEntry>) {
    doc.inner.toc.iter().map(
        |np: &epub::doc::NavPoint|
            TocEntry { label: np.label.clone(), path: np.content.to_string_lossy().into_owned() },
    ).collect()
}

/// Relies on `EpubDoc::mdata`: the value of the first metadata item with
/// this property name, if the container declares one.
#[verifier::external_body]
fn metadata_value(doc: &Archive, property: &str) -> (r: Option<String>) {
    doc.inner.mdata(property).map(|item| item.value.clone())
}

/// Relies on `EpubDoc::get_resource_str`: the text of the resource with
/// this identifier, when the identifier is listed and its entry decodes.
#[verifier::external_body]
fn resource_text(doc: &mut Archive, id: &String) -> (r: Option<String>) {
    doc.inner.get_resource_str(id).map(|found| found.0)
}

/// Relies on `EpubDoc::get_cover`: the cover image bytes, when the
/// metadata declares a cover resource.
#[verifier::external_body]
fn cover_of(doc: &mut Archive) -> (r: Option<Vec<u8>>) {
    doc.inner.get_cover().map(|found| found.0)
}

/// Everything normalization needs, pulled out of a parsed container as
/// plain values.
pub struct RawBook {
    pub spine: Vec<String>,
    pub manifest: Vec<ManifestEntry>,
    pub toc: Vec<TocEntry>,
    pub contents: Vec<Option<String>>,
    pub title: Option<String>,
    pub author: Option<String>,
    pub cover: Option<Vec<u8>>,
}

impl RawBook {
    pub open spec fn wf(self) -> bool {
        &&& self.contents@.len() == self.spine@.len()
        &&& unique_manifest_ids(self.manifest@)
    }
}

/// Parse the archive bytes and extract the raw document graph: spine,
/// manifest, table of contents, the text of every spine resource (absent
/// where a single resource fails to decode — that failure is not fatal),
/// title and creator metadata, and the cover image. Succeeds exactly on
/// readable archives: ones whose container declaration passes the
/// rootless-path screen and which the parser accepts.
pub fn introspect(bytes: Vec<u8>) -> (r: Result<RawBook, String>)
    ensures
        r is Ok <==> archive_readable(bytes@),
        r matches Ok(raw) ==> raw.wf(),
{
    match container_file(&bytes) {
        Some(cf) => {
            if !check_container_root(&cf) {
                return Err("container declares an unusable package path".to_string());
            }
        },
        None => {},
    }
    let mut doc = match parse_container(bytes) {
        Ok(d) => d,
        Err(msg) => {
            return Err(msg);
        },
    };
    let spine = spine_of(&doc);
    let manifest = manifest_of(&doc);
    let toc = toc_of(&doc);
    let title = metadata_value(&doc, "title");
    let author = metadata_value(&doc, "creator");
    let mut contents: Vec<Option<String>> = Vec::new();
    let mut i: usize = 0;
    while i < spine.len()
        invariant
            0 <= i <= spine@.len(),
            contents@.len() == i,
        decreases spine@.len() - i,
    {
        contents.push(resource_text(&mut doc, &spine[i]));
        i = i + 1;
    }
    let cover = cover_of(&mut doc);
    Ok(RawBook { spine, manifest, toc, contents, title, author, cover })
}

} // verus!
