//! The archive container: a volume travels as a single zip file whose named
//! entries are the metadata document, one image per page, and one OCR
//! document per page. The container itself is read and written by the `zip`
//! crate behind the trusted boundary below; everything the library states
//! about an archive is in terms of its entry list — the sequence of
//! `(name, contents)` pairs in container order.
//!
//! Entries are written uncompressed ("stored"): page images are already
//! compressed, and squeezing them again costs time for no size.

use vstd::prelude::*;
use vstd::string::{StringSliceAdditionalSpecFns, StrSliceExecFns};

use crate::errors::{AppError, AppErrorV};

verus! {

/// An open archive being read. Wraps the `zip` crate's reader; Verus sees
/// its contents only through [`ar_entries`].
#[verifier::external_body]
pub struct ArchiveReader {
    inner: zip::ZipArchive<std::io::Cursor<Vec<u8>>>,
}

/// The entry list of an open archive: `(name, contents)` in container
/// order.
pub uninterp spec fn ar_entries(a: ArchiveReader) -> Seq<(Seq<u8>, Seq<u8>)>;

/// The entry list that the given bytes decode to, or nothing where they are
/// not a readable container. Names what `zip::ZipArchive::new` (together
/// with reading every entry) computes: a function of the bytes alone.
pub uninterp spec fn zip_entries_of(bytes: Seq<u8>) -> Option<Seq<(Seq<u8>, Seq<u8>)>>;

/// Whether every entry of the open archive can actually be read: the
/// entry data decodes and its checksum matches. A function of the
/// archive's bytes; [`read_entry`] succeeds on such an archive.
pub uninterp spec fn ar_readable(a: ArchiveReader) -> bool;

/// [`ar_readable`], as a function of the container bytes.
pub uninterp spec fn zip_readable(bytes: Seq<u8>) -> bool;

/// Whether the writer is healthy: fresh, or only ever written with
/// success. A failed write leaves the writer's health unconstrained, and a
/// failed writer is not written to again.
pub uninterp spec fn aw_ok(w: ArchiveWriter) -> bool;

/// Whether `name` is valid UTF-8. Names what `std::str::from_utf8`
/// accepts: a function of the bytes alone.
pub uninterp spec fn utf8_ok(name: Seq<u8>) -> bool;

/// No two entries share a name.
pub open spec fn entry_names_unique(es: Seq<(Seq<u8>, Seq<u8>)>) -> bool {
    forall|i: int, j: int| 0 <= i < j < es.len() ==> es[i].0 != es[j].0
}

/// Whether every entry fits the container format: a UTF-8 name of at most
/// 65535 bytes and contents within the stored-entry bound.
pub open spec fn entries_exportable(es: Seq<(Seq<u8>, Seq<u8>)>) -> bool {
    forall|i: int|
        0 <= i < es.len() ==> utf8_ok((#[trigger] es[i]).0) && es[i].0.len() <= 65535
            && es[i].1.len() <= 0xFFFF_FFFF
}

/// Relies on `zip::ZipArchive::new`: opening a readable container yields
/// its entry list; unreadable bytes are rejected. What the list holds is a
/// function of the bytes alone.
#[verifier::external_body]
pub fn open_archive(bytes: Vec<u8>) -> (r: Result<ArchiveReader, AppError>)
    ensures
        match r {
            Ok(a) => zip_entries_of(bytes@) == Some(ar_entries(a)) && ar_readable(a)
                == zip_readable(bytes@),
            Err(e) => e@ == AppErrorV::ArchiveError && zip_entries_of(bytes@) is None,
        },
{
    match zip::ZipArchive::new(std::io::Cursor::new(bytes)) {
        Ok(inner) => Ok(ArchiveReader { inner }),
        Err(_) => Err(AppError::ArchiveError),
    }
}

/// Relies on `zip::ZipArchive::len`: the number of entries.
#[verifier::external_body]
pub fn archive_len(a: &ArchiveReader) -> (n: usize)
    ensures
        n == ar_entries(*a).len(),
{
    a.inner.len()
}

/// Relies on `zip::ZipArchive::by_index`, `ZipFile::name_raw` and
/// `std::io::Read::read_to_end`: the name and contents of the entry at
/// `idx`, or an error where the entry's data cannot be read — which a
/// readable archive rules out. Reading leaves the entry list as it was.
#[verifier::external_body]
pub fn read_entry(a: &mut ArchiveReader, idx: usize) -> (r: Result<(Vec<u8>, Vec<u8>), AppError>)
    requires
        idx < ar_entries(*old(a)).len(),
    ensures
        ar_entries(*final(a)) == ar_entries(*old(a)),
        ar_readable(*final(a)) == ar_readable(*old(a)),
        ar_readable(*old(a)) ==> r is Ok,
        match r {
            Ok(p) => (p.0@, p.1@) == ar_entries(*old(a))[idx as int],
            Err(e) => e@ == AppErrorV::ArchiveError,
        },
{
    let mut file = match a.inner.by_index(idx) {
        Ok(f) => f,
        Err(_) => return Err(AppError::ArchiveError),
    };
    let name = file.name_raw().to_vec();
    let mut data = Vec::new();
    match std::io::Read::read_to_end(&mut file, &mut data) {
        Ok(_) => Ok((name, data)),
        Err(_) => Err(AppError::ArchiveError),
    }
}

/// An archive being written. Wraps the `zip` crate's writer; Verus sees its
/// contents only through [`aw_entries`].
#[verifier::external_body]
pub struct ArchiveWriter {
    inner: zip::ZipWriter<std::io::Cursor<Vec<u8>>>,
}

/// The entries written so far, in order.
pub uninterp spec fn aw_entries(w: ArchiveWriter) -> Seq<(Seq<u8>, Seq<u8>)>;

/// Relies on `zip::ZipWriter::new`: a fresh writer holds no entries and
/// is healthy.
#[verifier::external_body]
pub fn new_archive_writer() -> (w: ArchiveWriter)
    ensures
        aw_entries(w) == Seq::<(Seq<u8>, Seq<u8>)>::empty(),
        aw_ok(w),
{
    ArchiveWriter { inner: zip::ZipWriter::new(std::io::Cursor::new(Vec::new())) }
}

/// Relies on `zip::ZipWriter::start_file` (stored, uncompressed) and
/// `std::io::Write::write_all` to an in-memory buffer: on success the
/// entry is appended. On a healthy writer the write succeeds whenever the
/// name is UTF-8, at most 65535 bytes, and not already written, and the
/// data fits the stored format; a name that is not UTF-8, a duplicate, or
/// a container error fails, and a failed writer is not written to again.
#[verifier::external_body]
pub fn write_entry(w: &mut ArchiveWriter, name: &Vec<u8>, data: &Vec<u8>) -> (r: Result<
    (),
    AppError,
>)
    ensures
        aw_ok(*old(w)) && utf8_ok(name@) && name@.len() <= 65535 && data@.len() <= 0xFFFF_FFFF
            && (forall|i: int|
            0 <= i < aw_entries(*old(w)).len() ==> (#[trigger] aw_entries(*old(w))[i]).0
                != name@) ==> r is Ok,
        match r {
            Ok(()) => aw_entries(*final(w)) == aw_entries(*old(w)).push((name@, data@)) && (aw_ok(
                *old(w),
            ) ==> aw_ok(*final(w))),
            Err(e) => e@ == AppErrorV::ArchiveError,
        },
{
    let options = zip::write::SimpleFileOptions::default().compression_method(
        zip::CompressionMethod::Stored,
    );
    let started = match std::str::from_utf8(name) {
        Ok(name_str) => w.inner.start_file(name_str, options).is_ok(),
        Err(_) => false,
    };
    if started && std::io::Write::write_all(&mut w.inner, data.as_slice()).is_ok() {
        Ok(())
    } else {
        Err(AppError::ArchiveError)
    }
}

/// Relies on `zip::ZipWriter::finish`: the finished container's bytes.
/// Finishing a healthy writer over an in-memory buffer succeeds. When no
/// two written entries share a name, reading the bytes back yields exactly
/// the written entries, in order, every one of them readable — the writer
/// and reader of the `zip` crate are inverses.
#[verifier::external_body]
pub fn finish_archive(w: ArchiveWriter) -> (r: Result<Vec<u8>, AppError>)
    ensures
        aw_ok(w) ==> r is Ok,
        match r {
            Ok(bytes) => entry_names_unique(aw_entries(w)) ==> zip_entries_of(bytes@) == Some(
                aw_entries(w),
            ) && (aw_ok(w) ==> zip_readable(bytes@)),
            Err(e) => e@ == AppErrorV::ArchiveError,
        },
{
    let mut w = w;
    match w.inner.finish() {
        Ok(cursor) => Ok(cursor.into_inner()),
        Err(_) => Err(AppError::ArchiveError),
    }
}

// --- the archive's layout ---------------------------------------------------

/// The metadata entry's fixed name.
pub open spec fn metadata_name() -> Seq<u8> {
    ("mokuro-metadata.json").spec_bytes()
}

/// The metadata entry's older fixed name, still accepted on import.
pub open spec fn legacy_metadata_name() -> Seq<u8> {
    ("mokuro.json").spec_bytes()
}

/// The contents of the first entry named `name`, if any.
pub open spec fn find_entry(es: Seq<(Seq<u8>, Seq<u8>)>, name: Seq<u8>) -> Option<Seq<u8>>
    decreases es.len(),
{
    if es.len() == 0 {
        None
    } else if es[0].0 == name {
        Some(es[0].1)
    } else {
        find_entry(es.drop_first(), name)
    }
}

/// The contents of the first entry named `name`, as a fresh byte string.
pub fn entries_find(es: &Vec<(Vec<u8>, Vec<u8>)>, name: &Vec<u8>) -> (r: Option<Vec<u8>>)
    ensures
        match r {
            Some(b) => find_entry(es.deep_view(), name@) == Some(b@),
            None => find_entry(es.deep_view(), name@) is None,
        },
{
    let ghost dv = es.deep_view();
    let n = es.len();
    proof {
        assert(dv.skip(0) =~= dv);
    }
    for i in 0..n
        invariant
            n == es@.len(),
            dv == es.deep_view(),
            find_entry(dv, name@) == find_entry(dv.skip(i as int), name@),
    {
        proof {
            assert(dv.skip(i as int)[0] == dv[i as int]);
            assert(dv[i as int].0 =~= es@[i as int].0@);
            assert(dv[i as int].1 =~= es@[i as int].1@);
        }
        if crate::store::bytes_eq(&es[i].0, name) {
            let b = es[i].1.clone();
            proof {
                assert(b@ =~= es@[i as int].1@);
            }
            return Some(b);
        }
        proof {
            assert(dv.skip(i as int).drop_first() =~= dv.skip(i as int + 1));
        }
    }
    proof {
        assert(dv.skip(n as int) =~= Seq::<(Seq<u8>, Seq<u8>)>::empty());
    }
    None
}

/// The page and OCR entries of an export, two per declared page, in order.
#[verifier::opaque]
pub open spec fn export_rows_list(
    store: crate::store::KeyedStore,
    id: crate::models::VolumeId,
    pages: Seq<(Seq<u8>, Seq<u8>)>,
) -> Seq<(Seq<u8>, Seq<u8>)>
    decreases pages.len(),
{
    if pages.len() == 0 {
        Seq::empty()
    } else {
        seq![
            (pages[0].0, store.page_data_at(id, pages[0].0)),
            (pages[0].1, crate::codec::ocr_json(store.ocr_at(id, pages[0].0))),
        ] + export_rows_list(store, id, pages.drop_first())
    }
}

/// The entry list an export of the volume keyed `id` produces: the metadata
/// document first, then, for every declared page in order, the page image
/// followed by the page's OCR document.
#[verifier::opaque]
pub open spec fn export_entry_list(store: crate::store::KeyedStore, id: crate::models::VolumeId)
    -> Seq<(Seq<u8>, Seq<u8>)> {
    let v = store.volume_at(id);
    seq![(metadata_name(), crate::codec::vol_json(crate::models::VolumeV { id: 0, ..v }))]
        + export_rows_list(store, id, v.pages)
}

/// Whether every row the volume keyed `id` declares is present in the
/// store.
pub open spec fn export_rows_present(
    store: crate::store::KeyedStore,
    id: crate::models::VolumeId,
) -> bool {
    forall|k: int|
        0 <= k < store.volume_at(id).pages.len() ==> store.has_page(
            id,
            #[trigger] store.volume_at(id).pages[k].0,
        ) && store.has_ocr(id, store.volume_at(id).pages[k].0)
}

/// The metadata entry of an export: the volume's canonical document under
/// the fixed entry name, with the store key cleared.
fn export_metadata_entry(
    store: &crate::store::KeyedStore,
    volume_id: crate::models::VolumeId,
) -> (r: Result<(Vec<u8>, Vec<u8>), AppError>)
    requires
        store.wf(),
    ensures
        match r {
            Ok(p) => store.has_volume(volume_id) && p.deep_view() == (
                metadata_name(),
                crate::codec::vol_json(
                    crate::models::VolumeV { id: 0, ..store.volume_at(volume_id) },
                ),
            ),
            Err(e) => e@ == AppErrorV::MissingRecord && !store.has_volume(volume_id),
        },
{
    let volume = match store.get_volume(volume_id) {
        Some(v) => v,
        None => {
            return Err(AppError::MissingRecord);
        }
    };
    let mut stripped = volume;
    stripped.id = 0;
    let meta = crate::codec::volume_to_json(&stripped);
    let meta_name = ("mokuro-metadata.json").as_bytes_vec();
    proof {
        assert(meta_name.deep_view() =~= meta_name@);
        assert(meta.deep_view() =~= meta@);
        assert(stripped@ == (crate::models::VolumeV { id: 0, ..store.volume_at(volume_id) }));
    }
    Ok((meta_name, meta))
}

/// One page's two archive entries, from the store.
fn export_row(
    store: &crate::store::KeyedStore,
    id: crate::models::VolumeId,
    name: &Vec<u8>,
    ocr_name: &Vec<u8>,
) -> (r: Result<((Vec<u8>, Vec<u8>), (Vec<u8>, Vec<u8>)), AppError>)
    requires
        store.wf(),
    ensures
        match r {
            Ok(p) => store.has_page(id, name@) && store.has_ocr(id, name@) && p.0.deep_view() == (
                name@,
                store.page_data_at(id, name@),
            ) && p.1.deep_view() == (
                ocr_name@,
                crate::codec::ocr_json(store.ocr_at(id, name@)),
            ),
            Err(e) => e@ == AppErrorV::MissingRecord && (!store.has_page(id, name@)
                || !store.has_ocr(id, name@)),
        },
{
    let pair = match store.get_page_and_ocr(id, name) {
        Some(p) => p,
        None => {
            return Err(AppError::MissingRecord);
        }
    };
    let (image, ocr) = pair;
    let ocr_bytes = crate::codec::page_ocr_to_json(&ocr);
    let name2 = name.clone();
    let ocr_name2 = ocr_name.clone();
    proof {
        assert(image.data.deep_view() =~= image@.1);
        assert(name2.deep_view() =~= name@);
        assert(ocr_name2.deep_view() =~= ocr_name@);
        assert(ocr_bytes.deep_view() =~= ocr_bytes@);
    }
    Ok(((name2, image.data), (ocr_name2, ocr_bytes)))
}

/// Serialize the volume keyed `volume_id`, with every declared page image
/// and OCR row, into an archive entry list. The volume's store key is
/// cleared in the metadata document: keys are local artifacts. Fails — with
/// nothing produced — exactly when the volume, or a page or OCR row its
/// page list declares, is not in the store; a declared row being absent is
/// state corruption, not user error.
#[verifier::rlimit(100)]
#[verifier::spinoff_prover]
pub fn export_entries(store: &crate::store::KeyedStore, volume_id: crate::models::VolumeId) -> (r:
    Result<Vec<(Vec<u8>, Vec<u8>)>, AppError>)
    requires
        store.wf(),
    ensures
        r is Ok <==> store.has_volume(volume_id) && export_rows_present(*store, volume_id),
        match r {
            Ok(es) => es.deep_view() == export_entry_list(*store, volume_id),
            Err(e) => e@ == AppErrorV::MissingRecord,
        },
{
    let meta_entry = match export_metadata_entry(store, volume_id) {
        Ok(p) => p,
        Err(e) => {
            return Err(e);
        }
    };
    let ghost v = store.volume_at(volume_id);
    let ghost spec_list = export_entry_list(*store, volume_id);
    let stripped = match store.get_volume(volume_id) {
        Some(vv) => vv,
        None => {
            return Err(AppError::MissingRecord);
        }
    };
    let mut es: Vec<(Vec<u8>, Vec<u8>)> = Vec::new();
    es.push(meta_entry);
    let n = stripped.pages.len();
    proof {
        assert(es.deep_view() + export_rows_list(*store, volume_id, v.pages.skip(0)) =~= spec_list)
            by {
            reveal(export_entry_list);
            assert(v.pages.skip(0) =~= v.pages);
        }
        assert(stripped@.pages == v.pages);
    }
    for k in 0..n
        invariant
            store.wf(),
            n == stripped.pages@.len(),
            store.has_volume(volume_id),
            v == store.volume_at(volume_id),
            spec_list == export_entry_list(*store, volume_id),
            stripped@.pages == v.pages,
            es.deep_view() + export_rows_list(*store, volume_id, v.pages.skip(k as int))
                == spec_list,
            forall|j: int|
                0 <= j < k ==> store.has_page(volume_id, #[trigger] v.pages[j].0)
                    && store.has_ocr(volume_id, v.pages[j].0),
    {
        proof {
            assert(stripped.pages@[k as int].name@ == v.pages[k as int].0) by {
                assert(stripped.pages.deep_view()[k as int] == stripped.pages@[
                    k as int
                ].deep_view());
            }
            assert(stripped.pages@[k as int].ocr@ == v.pages[k as int].1) by {
                assert(stripped.pages.deep_view()[k as int] == stripped.pages@[
                    k as int
                ].deep_view());
            }
        }
        let row = match export_row(
            store,
            volume_id,
            &stripped.pages[k].name,
            &stripped.pages[k].ocr,
        ) {
            Ok(p) => p,
            Err(e) => {
                return Err(e);
            }
        };
        let (pe, oe) = row;
        let ghost pre = es.deep_view();
        es.push(pe);
        es.push(oe);
        proof {
            reveal(export_rows_list);
            let rows = export_rows_list(*store, volume_id, v.pages.skip(k as int));
            assert(v.pages.skip(k as int)[0] == v.pages[k as int]);
            assert(v.pages.skip(k as int).drop_first() =~= v.pages.skip(k + 1));
            assert(rows == seq![
                (v.pages[k as int].0, store.page_data_at(volume_id, v.pages[k as int].0)),
                (
                    v.pages[k as int].1,
                    crate::codec::ocr_json(store.ocr_at(volume_id, v.pages[k as int].0)),
                ),
            ] + export_rows_list(*store, volume_id, v.pages.skip(k + 1)));
            assert(es.deep_view() =~= pre.push(
                (v.pages[k as int].0, store.page_data_at(volume_id, v.pages[k as int].0)),
            ).push(
                (
                    v.pages[k as int].1,
                    crate::codec::ocr_json(store.ocr_at(volume_id, v.pages[k as int].0)),
                ),
            ));
            assert(es.deep_view() + export_rows_list(*store, volume_id, v.pages.skip(k + 1)) =~= pre
                + rows);
        }
    }
    proof {
        reveal(export_rows_list);
        assert(v.pages.skip(n as int) =~= Seq::<(Seq<u8>, Seq<u8>)>::empty());
        assert(es.deep_view() + Seq::<(Seq<u8>, Seq<u8>)>::empty() =~= es.deep_view());
    }
    Ok(es)
}

// --- reading an archive in --------------------------------------------------

/// The metadata entry's contents: under the fixed name, or the legacy name.
pub open spec fn metadata_bytes(es: Seq<(Seq<u8>, Seq<u8>)>) -> Option<Seq<u8>> {
    match find_entry(es, metadata_name()) {
        Some(b) => Some(b),
        None => find_entry(es, legacy_metadata_name()),
    }
}

/// The volume the metadata entry declares, where the entry exists and is
/// one whole readable document.
pub open spec fn parsed_metadata(es: Seq<(Seq<u8>, Seq<u8>)>) -> Option<crate::models::VolumeV> {
    match metadata_bytes(es) {
        None => None,
        Some(b) => crate::codec::accepted_volume_doc(b),
    }
}

/// Whether `b` is one whole readable OCR document.
pub open spec fn ocr_doc_ok(b: Seq<u8>) -> bool {
    crate::codec::accepted_ocr_doc(b) is Some
}

/// The OCR record `b` declares (meaningful only where [`ocr_doc_ok`]).
pub open spec fn parsed_ocr(b: Seq<u8>) -> crate::models::PageOcrV {
    crate::codec::accepted_ocr_doc(b).unwrap()
}

/// The archive entry names a volume declares are pairwise distinct, and
/// none collides with the metadata entry's name: an archive keyed by name
/// cannot hold two entries under one name.
pub open spec fn import_names_ok(v: crate::models::VolumeV) -> bool {
    &&& forall|i: int, j: int|
        0 <= i < j < v.pages.len() ==> v.pages[i].0 != v.pages[j].0
    &&& forall|i: int, j: int|
        0 <= i < j < v.pages.len() ==> v.pages[i].1 != v.pages[j].1
    &&& forall|i: int, j: int|
        0 <= i < v.pages.len() && 0 <= j < v.pages.len() ==> v.pages[i].0 != v.pages[j].1
    &&& forall|i: int|
        0 <= i < v.pages.len() ==> #[trigger] v.pages[i].0 != metadata_name() && v.pages[i].1
            != metadata_name()
}

/// Whether an archive entry list is a volume this library accepts: a
/// readable metadata document declaring a well-formed volume with distinct
/// entry names, whose cover and every declared page image and OCR document
/// are present, the latter all readable.
pub open spec fn import_acceptable(es: Seq<(Seq<u8>, Seq<u8>)>) -> bool {
    match parsed_metadata(es) {
        None => false,
        Some(v) => {
            &&& v.wf()
            &&& import_names_ok(v)
            &&& find_entry(es, v.cover_name()) is Some
            &&& forall|k: int|
                0 <= k < v.pages.len() ==> find_entry(es, #[trigger] v.pages[k].0) is Some
            &&& forall|k: int|
                0 <= k < v.pages.len() ==> match find_entry(es, #[trigger] v.pages[k].1) {
                    Some(b) => ocr_doc_ok(b),
                    None => false,
                }
        },
    }
}

/// What an import may report of a rejected archive: the metadata entry's
/// name where the metadata is absent, unreadable or invalid; a missing
/// declared entry's name; or the name of an unreadable OCR document.
pub open spec fn import_error_plausible(es: Seq<(Seq<u8>, Seq<u8>)>, ev: AppErrorV) -> bool {
    match parsed_metadata(es) {
        None => ev == AppErrorV::InvalidMokuroFile(metadata_name()),
        Some(v) => if !(v.wf() && import_names_ok(v)) {
            ev == AppErrorV::InvalidMokuroFile(metadata_name())
        } else {
            match ev {
                AppErrorV::InvalidMokuroFile(n) => find_entry(es, n) is None && (n
                    == v.cover_name() || exists|k: int|
                    0 <= k < v.pages.len() && (n == #[trigger] v.pages[k].0 || n == v.pages[k].1)),
                AppErrorV::MalformedEntry(n) => exists|k: int|
                    0 <= k < v.pages.len() && n == #[trigger] v.pages[k].1 && (match find_entry(
                        es,
                        n,
                    ) {
                        Some(b) => !ocr_doc_ok(b),
                        None => false,
                    }),
                _ => false,
            }
        },
    }
}

/// Whether every archive entry name the volume declares is distinct from
/// the others and from the metadata entry's name.
fn check_names(v: &crate::models::VolumeMetadata) -> (b: bool)
    ensures
        b == import_names_ok(v@),
{
    let meta_name = ("mokuro-metadata.json").as_bytes_vec();
    let n = v.pages.len();
    let ghost pv = v@.pages;
    proof {
        assert(meta_name@ == metadata_name());
    }
    for i in 0..n
        invariant
            n == v.pages@.len(),
            pv == v@.pages,
            meta_name@ == metadata_name(),
            forall|a: int, b2: int| 0 <= a < b2 < i ==> pv[a].0 != pv[b2].0,
            forall|a: int, b2: int| 0 <= a < b2 < i ==> pv[a].1 != pv[b2].1,
            forall|a: int, b2: int| 0 <= a < i && 0 <= b2 < i ==> pv[a].0 != pv[b2].1,
            forall|a: int|
                0 <= a < i ==> #[trigger] pv[a].0 != metadata_name() && pv[a].1
                    != metadata_name(),
    {
        proof {
            assert(v.pages.deep_view()[i as int] == v.pages@[i as int].deep_view());
            assert(pv[i as int].0 =~= v.pages@[i as int].name@);
            assert(pv[i as int].1 =~= v.pages@[i as int].ocr@);
        }
        if crate::store::bytes_eq(&v.pages[i].name, &meta_name) || crate::store::bytes_eq(
            &v.pages[i].ocr,
            &meta_name,
        ) {
            proof {
                assert(pv[i as int].0 == metadata_name() || pv[i as int].1 == metadata_name());
            }
            return false;
        }
        if crate::store::bytes_eq(&v.pages[i].name, &v.pages[i].ocr) {
            proof {
                assert(pv[i as int].0 == pv[i as int].1);
            }
            return false;
        }
        for j in 0..i
            invariant
                n == v.pages@.len(),
                pv == v@.pages,
                i < n,
                forall|b2: int| 0 <= b2 < j ==> pv[b2].0 != pv[i as int].0,
                forall|b2: int| 0 <= b2 < j ==> pv[b2].1 != pv[i as int].1,
                forall|b2: int| 0 <= b2 < j ==> pv[b2].0 != pv[i as int].1,
                forall|b2: int| 0 <= b2 < j ==> pv[i as int].0 != pv[b2].1,
        {
            proof {
                assert(v.pages.deep_view()[i as int] == v.pages@[i as int].deep_view());
                assert(v.pages.deep_view()[j as int] == v.pages@[j as int].deep_view());
                assert(pv[i as int].0 =~= v.pages@[i as int].name@);
                assert(pv[i as int].1 =~= v.pages@[i as int].ocr@);
                assert(pv[j as int].0 =~= v.pages@[j as int].name@);
                assert(pv[j as int].1 =~= v.pages@[j as int].ocr@);
            }
            if crate::store::bytes_eq(&v.pages[j].name, &v.pages[i].name) || crate::store::bytes_eq(
                &v.pages[j].ocr,
                &v.pages[i].ocr,
            ) || crate::store::bytes_eq(&v.pages[j].name, &v.pages[i].ocr)
                || crate::store::bytes_eq(&v.pages[i].name, &v.pages[j].ocr) {
                proof {
                    assert(pv[j as int].0 == pv[i as int].0 || pv[j as int].1 == pv[i as int].1
                        || pv[j as int].0 == pv[i as int].1 || pv[i as int].0 == pv[j as int].1);
                }
                return false;
            }
            proof {
                assert(pv[j as int].0 != pv[i as int].0);
                assert(pv[j as int].1 != pv[i as int].1);
                assert(pv[j as int].0 != pv[i as int].1);
                assert(pv[i as int].0 != pv[j as int].1);
            }
        }
    }
    true
}

/// Read the declared page images and OCR rows out of the entry list,
/// without touching the store: everything is validated before anything is
/// written.
#[verifier::rlimit(100)]
#[verifier::spinoff_prover]
fn collect_rows(es: &Vec<(Vec<u8>, Vec<u8>)>, v: &crate::models::VolumeMetadata) -> (r: Result<
    (Vec<crate::models::PageImage>, Vec<crate::models::PageOcr>),
    AppError,
>)
    ensures
        match r {
            Ok(p) => {
                &&& p.0@.len() == v@.pages.len()
                &&& p.1@.len() == v@.pages.len()
                &&& forall|k: int|
                    0 <= k < v@.pages.len() ==> find_entry(
                        es.deep_view(),
                        #[trigger] v@.pages[k].0,
                    ) is Some && p.0@[k]@ == (
                        v@.pages[k].0,
                        find_entry(es.deep_view(), v@.pages[k].0).unwrap(),
                    )
                &&& forall|k: int|
                    0 <= k < v@.pages.len() ==> (match find_entry(
                        es.deep_view(),
                        #[trigger] v@.pages[k].1,
                    ) {
                        Some(b) => ocr_doc_ok(b) && p.1@[k]@ == parsed_ocr(b),
                        None => false,
                    })
            },
            Err(e) => import_names_ok(v@) ==> (match e@ {
                AppErrorV::InvalidMokuroFile(n) => find_entry(es.deep_view(), n) is None && (
                exists|k: int|
                    0 <= k < v@.pages.len() && (n == #[trigger] v@.pages[k].0 || n
                        == v@.pages[k].1)),
                AppErrorV::MalformedEntry(n) => exists|k: int|
                    0 <= k < v@.pages.len() && n == #[trigger] v@.pages[k].1 && (match find_entry(
                        es.deep_view(),
                        n,
                    ) {
                        Some(b) => !ocr_doc_ok(b),
                        None => false,
                    }),
                _ => false,
            }),
        },
{
    let mut images: Vec<crate::models::PageImage> = Vec::new();
    let mut ocrs: Vec<crate::models::PageOcr> = Vec::new();
    let n = v.pages.len();
    let ghost pv = v@.pages;
    for k in 0..n
        invariant
            n == v.pages@.len(),
            pv == v@.pages,
            images@.len() == k,
            ocrs@.len() == k,
            forall|j: int|
                0 <= j < k ==> find_entry(es.deep_view(), #[trigger] pv[j].0) is Some
                    && images@[j]@ == (pv[j].0, find_entry(es.deep_view(), pv[j].0).unwrap()),
            forall|j: int|
                0 <= j < k ==> (match find_entry(es.deep_view(), #[trigger] pv[j].1) {
                    Some(b) => ocr_doc_ok(b) && ocrs@[j]@ == parsed_ocr(b),
                    None => false,
                }),
    {
        proof {
            assert(v.pages.deep_view()[k as int] == v.pages@[k as int].deep_view());
            assert(pv[k as int].0 =~= v.pages@[k as int].name@);
            assert(pv[k as int].1 =~= v.pages@[k as int].ocr@);
        }
        let image_bytes = match entries_find(es, &v.pages[k].name) {
            Some(b) => b,
            None => {
                return Err(
                    AppError::InvalidMokuroFile(
                        crate::errors::InvalidMokuroFileError::MissingFile(
                            v.pages[k].name.clone(),
                        ),
                    ),
                );
            }
        };
        let ocr_bytes = match entries_find(es, &v.pages[k].ocr) {
            Some(b) => b,
            None => {
                return Err(
                    AppError::InvalidMokuroFile(
                        crate::errors::InvalidMokuroFileError::MissingFile(v.pages[k].ocr.clone()),
                    ),
                );
            }
        };
        let ocr = match crate::codec::page_ocr_from_json(&ocr_bytes) {
            Some(o) => o,
            None => {
                return Err(AppError::MalformedEntry(v.pages[k].ocr.clone()));
            }
        };
        let image = crate::models::PageImage::new(&v.pages[k].name, &image_bytes);
        proof {
            assert(image@.0 =~= pv[k as int].0);
            assert(image@.1 =~= image_bytes@);
        }
        images.push(image);
        ocrs.push(ocr);
    }
    Ok((images, ocrs))
}

/// Insert a freshly imported volume and its rows, all of them already
/// validated: the volume row first (receiving a fresh key), then one page
/// and one OCR row per declared page, keyed by the page's name.
#[verifier::rlimit(100)]
#[verifier::spinoff_prover]
fn insert_rows(
    store: &mut crate::store::KeyedStore,
    volume: crate::models::VolumeMetadata,
    images: Vec<crate::models::PageImage>,
    ocrs: Vec<crate::models::PageOcr>,
) -> (r: (crate::models::VolumeId, crate::models::VolumeMetadata))
    requires
        old(store).wf(),
        old(store).next_id < crate::models::VolumeId::MAX - 1,
        volume@.id == 0,
        forall|j: int, l: int|
            0 <= j < l < volume@.pages.len() ==> volume@.pages[j].0 != volume@.pages[l].0,
        images@.len() == volume@.pages.len(),
        ocrs@.len() == volume@.pages.len(),
        forall|k: int|
            0 <= k < volume@.pages.len() ==> (#[trigger] images@[k]@).0 == volume@.pages[k].0,
    ensures
        final(store).wf(),
        r.0 == old(store).next_id,
        !old(store).has_volume(r.0),
        r.1@ == (crate::models::VolumeV { id: r.0, ..volume@ }),
        final(store).has_volume(r.0) && final(store).volume_at(r.0) == r.1@,
        forall|k: int|
            0 <= k < volume@.pages.len() ==> final(store).has_page(
                r.0,
                #[trigger] volume@.pages[k].0,
            ) && final(store).page_data_at(r.0, volume@.pages[k].0) == images@[k]@.1
                && final(store).has_ocr(r.0, volume@.pages[k].0)
                && final(store).ocr_at(r.0, volume@.pages[k].0) == ocrs@[k]@,
        final(store).volumes@.len() == old(store).volumes@.len() + 1,
        final(store).pages@.len() == old(store).pages@.len() + volume@.pages.len(),
        final(store).ocr@.len() == old(store).ocr@.len() + volume@.pages.len(),
        final(store).settings == old(store).settings,
        final(store).next_id == old(store).next_id + 1,
{
    let ghost pv = volume@.pages;
    let n = volume.pages.len();
    let mut names: Vec<Vec<u8>> = Vec::new();
    for k in 0..n
        invariant
            n == volume.pages@.len(),
            pv == volume@.pages,
            names@.len() == k,
            forall|j: int| 0 <= j < k ==> #[trigger] names@[j]@ == pv[j].0,
    {
        proof {
            assert(volume.pages.deep_view()[k as int] == volume.pages@[k as int].deep_view());
            assert(volume.pages@[k as int].name@ =~= pv[k as int].0);
        }
        let nm = volume.pages[k].name.clone();
        proof {
            assert(nm@ =~= volume.pages@[k as int].name@);
        }
        names.push(nm);
    }
    let id = store.put_volume(volume);
    let stored = match store.get_volume(id) {
        Some(v) => v,
        None => vstd::pervasive::unreached(),
    };
    proof {
        let i = choose|i: int|
            0 <= i < store.volumes@.len() && store.volumes@[i].id == id && store.volumes@[i].volume@
                == (crate::models::VolumeV { id: id, ..volume@ });
        let j = choose|j: int| 0 <= j < store.volumes@.len() && store.volumes@[j].id == id;
        assert(i == j);
        assert(store.volume_at(id) == (crate::models::VolumeV { id: id, ..volume@ }));
    }
    let ghost base = *store;
    let ghost images_all = images@;
    let ghost ocrs_all = ocrs@;
    proof {
        assert(images@ =~= images_all.skip(0));
        assert(ocrs@ =~= ocrs_all.skip(0));
    }
    let mut images = images;
    let mut ocrs = ocrs;
    let mut k: usize = 0;
    while k < n
        invariant
            k <= n,
            n == pv.len(),
            names@.len() == n,
            forall|j: int| 0 <= j < n ==> #[trigger] names@[j]@ == pv[j].0,
            forall|j: int, l: int| 0 <= j < l < n ==> pv[j].0 != pv[l].0,
            images_all.len() == n,
            ocrs_all.len() == n,
            images@ == images_all.skip(k as int),
            ocrs@ == ocrs_all.skip(k as int),
            store.wf(),
            0 < id < store.next_id,
            store.volumes == base.volumes,
            store.settings == base.settings,
            store.next_id == base.next_id,
            store.pages@.len() == base.pages@.len() + k,
            store.ocr@.len() == base.ocr@.len() + k,
            forall|m: int|
                0 <= m < base.pages@.len() ==> #[trigger] store.pages@[m] == base.pages@[m],
            forall|m: int| 0 <= m < base.ocr@.len() ==> #[trigger] store.ocr@[m] == base.ocr@[m],
            forall|m: int|
                0 <= m < base.pages@.len() ==> #[trigger] base.pages@[m].volume_id != id,
            forall|m: int| 0 <= m < base.ocr@.len() ==> #[trigger] base.ocr@[m].volume_id != id,
            forall|m: int|
                base.pages@.len() <= m < store.pages@.len() ==> (#[trigger] store.pages@[m]).volume_id
                    == id && store.pages@[m].name@ == pv[m - base.pages@.len()].0
                    && store.pages@[m].image@.1 == images_all[m - base.pages@.len()]@.1,
            forall|m: int|
                base.ocr@.len() <= m < store.ocr@.len() ==> (#[trigger] store.ocr@[m]).volume_id
                    == id && store.ocr@[m].name@ == pv[m - base.ocr@.len()].0
                    && store.ocr@[m].ocr@ == ocrs_all[m - base.ocr@.len()]@,
        decreases n - k,
    {
        let image = images.remove(0);
        let ocr = ocrs.remove(0);
        proof {
            assert(images_all.skip(k as int)[0] == images_all[k as int]);
            assert(ocrs_all.skip(k as int)[0] == ocrs_all[k as int]);
            assert(images@ =~= images_all.skip(k as int + 1));
            assert(ocrs@ =~= ocrs_all.skip(k as int + 1));
        }
        let name = names[k].clone();
        let name2 = names[k].clone();
        proof {
            assert(name@ =~= names@[k as int]@);
            assert(name2@ =~= names@[k as int]@);
            assert forall|m: int| 0 <= m < store.pages@.len() implies !(
            #[trigger] store.pages@[m].volume_id == id && store.pages@[m].name@ == name@) by {
                if m < base.pages@.len() {
                } else {
                    assert(store.pages@[m].name@ == pv[m - base.pages@.len()].0);
                }
            }
            assert(!store.has_page(id, name@));
            assert forall|m: int| 0 <= m < store.ocr@.len() implies !(
            #[trigger] store.ocr@[m].volume_id == id && store.ocr@[m].name@ == name2@) by {
                if m < base.ocr@.len() {
                } else {
                    assert(store.ocr@[m].name@ == pv[m - base.ocr@.len()].0);
                }
            }
            assert(!store.has_ocr(id, name2@));
        }
        store.put_page(id, name, image);
        store.put_ocr(id, name2, ocr);
        k = k + 1;
    }
    proof {
        assert forall|j: int| 0 <= j < pv.len() implies store.has_page(id, #[trigger] pv[j].0)
            && store.page_data_at(id, pv[j].0) == images_all[j]@.1 && store.has_ocr(id, pv[j].0)
            && store.ocr_at(id, pv[j].0) == ocrs_all[j]@ by {
            let m0 = base.pages@.len() + j;
            assert(store.pages@[m0].volume_id == id && store.pages@[m0].name@ == pv[j].0);
            let c = choose|c: int|
                0 <= c < store.pages@.len() && store.pages@[c].volume_id == id
                    && store.pages@[c].name@ == pv[j].0;
            assert(c == m0) by {
                if c < base.pages@.len() {
                } else {
                    assert(store.pages@[c].name@ == pv[c - base.pages@.len()].0);
                }
            }
            let m1 = base.ocr@.len() + j;
            assert(store.ocr@[m1].volume_id == id && store.ocr@[m1].name@ == pv[j].0);
            let c2 = choose|c2: int|
                0 <= c2 < store.ocr@.len() && store.ocr@[c2].volume_id == id
                    && store.ocr@[c2].name@ == pv[j].0;
            assert(c2 == m1) by {
                if c2 < base.ocr@.len() {
                } else {
                    assert(store.ocr@[c2].name@ == pv[c2 - base.ocr@.len()].0);
                }
            }
        }
        let i = choose|i: int| 0 <= i < store.volumes@.len() && store.volumes@[i].id == id;
        let j2 = choose|j2: int| 0 <= j2 < base.volumes@.len() && base.volumes@[j2].id == id;
        assert(store.volume_at(id) == base.volume_at(id));
    }
    (id, stored)
}

/// Everything a successful import leaves behind: the returned volume and
/// cover, and the store's new rows, stated over the accepted entry list.
pub open spec fn import_outcome(
    pre: crate::store::KeyedStore,
    post: crate::store::KeyedStore,
    es: Seq<(Seq<u8>, Seq<u8>)>,
    vv: crate::models::VolumeV,
    cv: (Seq<u8>, Seq<u8>),
) -> bool {
    let w = parsed_metadata(es).unwrap();
    let id = pre.next_id;
    &&& vv == (crate::models::VolumeV { id: id, magnifier: pre.settings_magnifier(), ..w })
    &&& cv == (w.cover_name(), find_entry(es, w.cover_name()).unwrap())
    &&& !pre.has_volume(id)
    &&& post.has_volume(id) && post.volume_at(id) == vv
    &&& forall|k: int|
        0 <= k < w.pages.len() ==> post.has_page(id, #[trigger] w.pages[k].0) && post.page_data_at(
            id,
            w.pages[k].0,
        ) == find_entry(es, w.pages[k].0).unwrap() && post.has_ocr(id, w.pages[k].0)
            && post.ocr_at(id, w.pages[k].0) == parsed_ocr(find_entry(es, w.pages[k].1).unwrap())
    &&& post.volumes@.len() == pre.volumes@.len() + 1
    &&& post.pages@.len() == pre.pages@.len() + w.pages.len()
    &&& post.ocr@.len() == pre.ocr@.len() + w.pages.len()
    &&& post.settings == pre.settings
    &&& post.next_id == pre.next_id + 1
}

/// Find, parse and validate the metadata entry. Absent, unreadable or
/// invalid metadata is one and the same rejection: a missing metadata
/// file.
#[verifier::rlimit(100)]
#[verifier::spinoff_prover]
fn read_metadata(entries: &Vec<(Vec<u8>, Vec<u8>)>) -> (r: Result<
    crate::models::VolumeMetadata,
    AppError,
>)
    ensures
        match r {
            Ok(v) => parsed_metadata(entries.deep_view()) == Some(v@) && v@.wf()
                && import_names_ok(v@) && v@.id == 0,
            Err(e) => e@ == AppErrorV::InvalidMokuroFile(metadata_name()) && (match
                parsed_metadata(entries.deep_view()) {
                None => true,
                Some(w) => !(w.wf() && import_names_ok(w)),
            }),
        },
{
    let ghost es = entries.deep_view();
    let meta_name = ("mokuro-metadata.json").as_bytes_vec();
    proof {
        assert(meta_name@ == metadata_name());
        assert(meta_name.deep_view() =~= metadata_name());
    }
    let meta_bytes = match entries_find(entries, &meta_name) {
        Some(b) => b,
        None => {
            let legacy = ("mokuro.json").as_bytes_vec();
            proof {
                assert(legacy@ == legacy_metadata_name());
            }
            match entries_find(entries, &legacy) {
                Some(b) => b,
                None => {
                    return Err(
                        AppError::InvalidMokuroFile(
                            crate::errors::InvalidMokuroFileError::MissingFile(meta_name),
                        ),
                    );
                }
            }
        }
    };
    proof {
        assert(metadata_bytes(es) == Some(meta_bytes@));
    }
    let volume = match crate::codec::volume_from_json(&meta_bytes) {
        Some(v) => v,
        None => {
            return Err(
                AppError::InvalidMokuroFile(
                    crate::errors::InvalidMokuroFileError::MissingFile(meta_name),
                ),
            );
        }
    };
    proof {
        assert(parsed_metadata(es) == Some(volume@));
    }
    if !(volume.pages.len() > 0 && volume.reader_state.current_page < volume.pages.len()) {
        return Err(
            AppError::InvalidMokuroFile(
                crate::errors::InvalidMokuroFileError::MissingFile(meta_name),
            ),
        );
    }
    if !check_names(&volume) {
        return Err(
            AppError::InvalidMokuroFile(
                crate::errors::InvalidMokuroFileError::MissingFile(meta_name),
            ),
        );
    }
    Ok(volume)
}

/// Read a volume archive's entry list into the store: parse and validate
/// the metadata, check that the cover and every declared page image and OCR
/// document are present and readable, and only then — nothing having been
/// written yet — insert the volume row (under a fresh key), one page row
/// and one OCR row per declared page, the latter two keyed by the page's
/// name. The new volume takes the global magnifier settings. A rejected
/// archive leaves the store exactly as it was: no partial volume survives
/// a failed import.
#[verifier::rlimit(100)]
#[verifier::spinoff_prover]
pub fn import_entries(
    store: &mut crate::store::KeyedStore,
    entries: &Vec<(Vec<u8>, Vec<u8>)>,
) -> (r: Result<(crate::models::VolumeMetadata, crate::models::PageImage), AppError>)
    requires
        old(store).wf(),
        old(store).next_id < crate::models::VolumeId::MAX - 1,
    ensures
        final(store).wf(),
        r is Ok <==> import_acceptable(entries.deep_view()),
        match r {
            Ok(p) => ({
                let es = entries.deep_view();
                let w = parsed_metadata(es).unwrap();
                let id = old(store).next_id;
                &&& p.0@ == (crate::models::VolumeV {
                    id: id,
                    magnifier: old(store).settings_magnifier(),
                    ..w
                })
                &&& p.1@ == (w.cover_name(), find_entry(es, w.cover_name()).unwrap())
                &&& !old(store).has_volume(id)
                &&& final(store).has_volume(id) && final(store).volume_at(id) == p.0@
                &&& forall|k: int|
                    0 <= k < w.pages.len() ==> final(store).has_page(id, #[trigger] w.pages[k].0)
                        && final(store).page_data_at(id, w.pages[k].0) == find_entry(
                        es,
                        w.pages[k].0,
                    ).unwrap() && final(store).has_ocr(id, w.pages[k].0)
                        && final(store).ocr_at(id, w.pages[k].0) == parsed_ocr(
                        find_entry(es, w.pages[k].1).unwrap(),
                    )
                &&& final(store).volumes@.len() == old(store).volumes@.len() + 1
                &&& final(store).pages@.len() == old(store).pages@.len() + w.pages.len()
                &&& final(store).ocr@.len() == old(store).ocr@.len() + w.pages.len()
                &&& final(store).settings == old(store).settings
                &&& final(store).next_id == old(store).next_id + 1
            }),
            Err(e) => *final(store) == *old(store) && import_error_plausible(
                entries.deep_view(),
                e@,
            ),
        },
{
    let ghost es = entries.deep_view();
    let mut volume = match read_metadata(entries) {
        Ok(v) => v,
        Err(e) => {
            return Err(e);
        }
    };
    let ghost w = volume@;
    volume.magnifier = store.get_settings().magnifier;
    proof {
        assert(volume@ == (crate::models::VolumeV {
            id: 0,
            magnifier: store.settings_magnifier(),
            ..w
        }));
        assert(volume@.wf() && import_names_ok(volume@));
    }
    let cover_name = volume.cover().clone();
    proof {
        assert(cover_name@ =~= volume@.cover_name());
        assert(cover_name.deep_view() =~= cover_name@);
        assert(volume@.cover_name() == w.cover_name());
    }
    let cover_bytes = match entries_find(entries, &cover_name) {
        Some(b) => b,
        None => {
            return Err(
                AppError::InvalidMokuroFile(
                    crate::errors::InvalidMokuroFileError::MissingFile(cover_name),
                ),
            );
        }
    };
    let cover_img = crate::models::PageImage::new(&cover_name, &cover_bytes);
    proof {
        assert(cover_img@.0 =~= w.cover_name());
        assert(cover_img@.1 =~= cover_bytes@);
    }
    let rows = match collect_rows(entries, &volume) {
        Ok(p) => p,
        Err(e) => {
            return Err(e);
        }
    };
    let (images, ocrs) = rows;
    let ghost images_v = images@;
    let (id, stored) = insert_rows(store, volume, images, ocrs);
    proof {
        assert(import_acceptable(es));
        assert forall|k: int| 0 <= k < w.pages.len() implies store.has_page(
            id,
            #[trigger] w.pages[k].0,
        ) && store.page_data_at(id, w.pages[k].0) == find_entry(es, w.pages[k].0).unwrap()
            && store.has_ocr(id, w.pages[k].0) && store.ocr_at(id, w.pages[k].0) == parsed_ocr(
            find_entry(es, w.pages[k].1).unwrap(),
        ) by {
            assert(images_v[k]@.1 == find_entry(es, w.pages[k].0).unwrap());
        }
    }
    Ok((stored, cover_img))
}

/// A cover override that does not name a declared page cannot travel
/// through an archive: the archive holds only declared entries.
pub open spec fn cover_resolvable(v: crate::models::VolumeV) -> bool {
    match v.cover {
        None => true,
        Some(c) => exists|k: int| 0 <= k < v.pages.len() && c == #[trigger] v.pages[k].0,
    }
}

/// Looking a declared page's image or OCR entry up in the exported rows
/// finds exactly what the store holds.
#[verifier::rlimit(100)]
#[verifier::spinoff_prover]
proof fn lemma_rows_find(
    store: crate::store::KeyedStore,
    id: crate::models::VolumeId,
    ps: Seq<(Seq<u8>, Seq<u8>)>,
    k: int,
)
    requires
        0 <= k < ps.len(),
        forall|i: int, j: int| 0 <= i < j < ps.len() ==> ps[i].0 != ps[j].0,
        forall|i: int, j: int| 0 <= i < j < ps.len() ==> ps[i].1 != ps[j].1,
        forall|i: int, j: int|
            0 <= i < ps.len() && 0 <= j < ps.len() ==> ps[i].0 != ps[j].1,
    ensures
        find_entry(export_rows_list(store, id, ps), ps[k].0) == Some(
            store.page_data_at(id, ps[k].0),
        ),
        find_entry(export_rows_list(store, id, ps), ps[k].1) == Some(
            crate::codec::ocr_json(store.ocr_at(id, ps[k].0)),
        ),
    decreases ps.len(),
{
    reveal(export_rows_list);
    let rows = export_rows_list(store, id, ps);
    let e0 = (ps[0].0, store.page_data_at(id, ps[0].0));
    let e1 = (ps[0].1, crate::codec::ocr_json(store.ocr_at(id, ps[0].0)));
    let rest = export_rows_list(store, id, ps.drop_first());
    assert(rows == seq![e0, e1] + rest);
    assert(rows[0] == e0);
    assert(rows.drop_first() =~= seq![e1] + rest);
    assert((seq![e1] + rest)[0] == e1);
    assert((seq![e1] + rest).drop_first() =~= rest);
    if k == 0 {
        assert(find_entry(rows, ps[0].0) == Some(e0.1));
        assert(ps[0].1 != ps[0].0);
        assert(find_entry(rows, ps[0].1) == find_entry(rows.drop_first(), ps[0].1));
        assert(find_entry(seq![e1] + rest, ps[0].1) == Some(e1.1));
    } else {
        let nm = ps[k].0;
        let om = ps[k].1;
        assert(nm != ps[0].0 && nm != ps[0].1);
        assert(om != ps[0].1 && om != ps[0].0);
        assert(find_entry(rows, nm) == find_entry(rows.drop_first(), nm));
        assert(find_entry(seq![e1] + rest, nm) == find_entry((seq![e1] + rest).drop_first(), nm));
        assert(find_entry(rows, nm) == find_entry(rest, nm));
        assert(find_entry(rows, om) == find_entry(rows.drop_first(), om));
        assert(find_entry(seq![e1] + rest, om) == find_entry((seq![e1] + rest).drop_first(), om));
        assert(find_entry(rows, om) == find_entry(rest, om));
        assert(ps.drop_first()[k - 1] == ps[k]);
        lemma_rows_find(store, id, ps.drop_first(), k - 1);
    }
}

/// The names in the exported rows, by position: the page name at even
/// offsets, the OCR entry's name at odd ones.
proof fn lemma_rows_names(
    store: crate::store::KeyedStore,
    id: crate::models::VolumeId,
    ps: Seq<(Seq<u8>, Seq<u8>)>,
)
    ensures
        export_rows_list(store, id, ps).len() == 2 * ps.len(),
        forall|m: int|
            0 <= m < 2 * ps.len() ==> #[trigger] export_rows_list(store, id, ps)[m].0 == (if m % 2
                == 0 {
                ps[m / 2].0
            } else {
                ps[m / 2].1
            }),
    decreases ps.len(),
{
    reveal(export_rows_list);
    if ps.len() > 0 {
        lemma_rows_names(store, id, ps.drop_first());
        let rows = export_rows_list(store, id, ps);
        let rest = export_rows_list(store, id, ps.drop_first());
        assert forall|m: int| 0 <= m < 2 * ps.len() implies #[trigger] rows[m].0 == (if m % 2 == 0 {
            ps[m / 2].0
        } else {
            ps[m / 2].1
        }) by {
            if m >= 2 {
                assert(rows[m] == rest[m - 2]);
                assert(ps.drop_first()[(m - 2) / 2] == ps[m / 2]);
            }
        }
    }
}

/// A volume with distinct declared entry names exports an entry list with
/// distinct names.
#[verifier::rlimit(100)]
#[verifier::spinoff_prover]
proof fn lemma_export_list_unique(store: crate::store::KeyedStore, id: crate::models::VolumeId)
    requires
        import_names_ok(store.volume_at(id)),
    ensures
        entry_names_unique(export_entry_list(store, id)),
{
    reveal(export_entry_list);
    let v = store.volume_at(id);
    let list = export_entry_list(store, id);
    let rows = export_rows_list(store, id, v.pages);
    lemma_rows_names(store, id, v.pages);
    assert forall|i: int, j: int| 0 <= i < j < list.len() implies list[i].0 != list[j].0 by {
        if i == 0 {
            assert(list[0].0 == metadata_name());
            assert(list[j] == rows[j - 1]);
        } else {
            assert(list[i] == rows[i - 1]);
            assert(list[j] == rows[j - 1]);
        }
    }
}

/// Exporting a volume and importing the result reproduces it: the exported
/// entry list is acceptable to the import, its metadata parses back to the
/// very volume (under a cleared key), and every page image and OCR row
/// reads back as what the store held. Together with the contract of
/// [`import_entries`], importing an export of any well-formed volume
/// recreates the volume — only the store-assigned key, and the magnifier
/// defaults the import applies, may differ.
#[verifier::rlimit(100)]
#[verifier::spinoff_prover]
pub proof fn lemma_archive_round_trip(store: crate::store::KeyedStore, id: crate::models::VolumeId)
    requires
        store.wf(),
        store.has_volume(id),
        store.volume_at(id).wf(),
        import_names_ok(store.volume_at(id)),
        cover_resolvable(store.volume_at(id)),
    ensures
        import_acceptable(export_entry_list(store, id)),
        parsed_metadata(export_entry_list(store, id)) == Some(
            crate::models::VolumeV { id: 0, ..store.volume_at(id) },
        ),
        forall|k: int|
            0 <= k < store.volume_at(id).pages.len() ==> find_entry(
                export_entry_list(store, id),
                (#[trigger] store.volume_at(id).pages[k]).0,
            ) == Some(store.page_data_at(id, store.volume_at(id).pages[k].0)),
        forall|k: int|
            0 <= k < store.volume_at(id).pages.len() ==> find_entry(
                export_entry_list(store, id),
                (#[trigger] store.volume_at(id).pages[k]).1,
            ) == Some(crate::codec::ocr_json(store.ocr_at(id, store.volume_at(id).pages[k].0)))
                && parsed_ocr(
                find_entry(export_entry_list(store, id), store.volume_at(id).pages[k].1).unwrap(),
            ) == store.ocr_at(id, store.volume_at(id).pages[k].0),
{
    reveal(export_entry_list);
    let v = store.volume_at(id);
    let stripped = crate::models::VolumeV { id: 0, ..v };
    let meta = (metadata_name(), crate::codec::vol_json(stripped));
    let rows = export_rows_list(store, id, v.pages);
    let list = export_entry_list(store, id);
    assert(list == seq![meta] + rows);
    assert(list[0] == meta);
    assert(list.drop_first() =~= rows);
    // the metadata entry is found first and parses back to the volume
    assert(find_entry(list, metadata_name()) == Some(meta.1));
    assert(metadata_bytes(list) == Some(crate::codec::vol_json(stripped)));
    crate::codec::lemma_volume_round_trip(stripped);
    assert(crate::models::VolumeV { id: 0, ..stripped } == stripped);
    assert(parsed_metadata(list) == Some(stripped));
    // every declared entry is found past the metadata entry
    assert forall|k: int| 0 <= k < v.pages.len() implies find_entry(
        list,
        (#[trigger] v.pages[k]).0,
    ) == Some(store.page_data_at(id, v.pages[k].0)) && find_entry(list, v.pages[k].1) == Some(
        crate::codec::ocr_json(store.ocr_at(id, v.pages[k].0)),
    ) by {
        assert(v.pages[k].0 != metadata_name() && v.pages[k].1 != metadata_name());
        assert(find_entry(list, v.pages[k].0) == find_entry(rows, v.pages[k].0));
        assert(find_entry(list, v.pages[k].1) == find_entry(rows, v.pages[k].1));
        lemma_rows_find(store, id, v.pages, k);
    }
    // the OCR documents read back as the stored records
    assert forall|k: int| 0 <= k < v.pages.len() implies ocr_doc_ok(
        crate::codec::ocr_json(store.ocr_at(id, (#[trigger] v.pages[k]).0)),
    ) && parsed_ocr(crate::codec::ocr_json(store.ocr_at(id, v.pages[k].0))) == store.ocr_at(
        id,
        v.pages[k].0,
    ) by {
        crate::codec::lemma_ocr_round_trip(store.ocr_at(id, v.pages[k].0));
    }
    // the cover resolves to a declared page
    assert(find_entry(list, stripped.cover_name()) is Some) by {
        match v.cover {
            None => {
                assert(stripped.cover_name() == v.pages[0].0);
            }
            Some(c) => {
                let k = choose|k: int| 0 <= k < v.pages.len() && c == v.pages[k].0;
                assert(stripped.cover_name() == v.pages[k].0);
            }
        }
    }
    assert(stripped.wf());
    assert(import_names_ok(stripped));
}

/// Open a zip archive's bytes and read the volume inside into the store,
/// as [`import_entries`] says. The container layer may fail on unreadable
/// bytes; for whatever entry list the container yields, the import's
/// contract governs what is inserted, and a failed import leaves the store
/// exactly as it was. Success is owed whenever the bytes decode to a
/// readable container whose entry list the import accepts.
#[verifier::rlimit(100)]
#[verifier::spinoff_prover]
pub fn extract_ziparchive(
    store: &mut crate::store::KeyedStore,
    bytes: Vec<u8>,
) -> (r: Result<(crate::models::VolumeMetadata, crate::models::PageImage), AppError>)
    requires
        old(store).wf(),
        old(store).next_id < crate::models::VolumeId::MAX - 1,
    ensures
        final(store).wf(),
        r is Err ==> *final(store) == *old(store),
        zip_entries_of(bytes@) is None ==> r is Err,
        (zip_entries_of(bytes@) matches Some(es) && zip_readable(bytes@) && import_acceptable(
            es,
        )) ==> r is Ok,
        match r {
            Ok(p) => zip_entries_of(bytes@) matches Some(es) && import_acceptable(es)
                && import_outcome(*old(store), *final(store), es, p.0@, p.1@),
            Err(e) => true,
        },
{
    let mut archive = match open_archive(bytes) {
        Ok(a) => a,
        Err(e) => {
            return Err(e);
        }
    };
    let es = match read_all_entries(&mut archive) {
        Ok(es) => es,
        Err(e) => {
            return Err(e);
        }
    };
    import_entries(store, &es)
}

/// Every entry of an open archive, in container order; a readable archive
/// always yields its list.
fn read_all_entries(a: &mut ArchiveReader) -> (r: Result<Vec<(Vec<u8>, Vec<u8>)>, AppError>)
    ensures
        ar_readable(*old(a)) ==> r is Ok,
        match r {
            Ok(es) => es.deep_view() == ar_entries(*old(a)),
            Err(e) => e@ == AppErrorV::ArchiveError,
        },
{
    let n = archive_len(a);
    let ghost ar = ar_entries(*a);
    let mut es: Vec<(Vec<u8>, Vec<u8>)> = Vec::new();
    proof {
        assert(es.deep_view() =~= ar.subrange(0, 0));
    }
    for i in 0..n
        invariant
            n == ar_entries(*a).len(),
            ar == ar_entries(*a),
            ar_readable(*a) == ar_readable(*old(a)),
            es.deep_view() == ar.subrange(0, i as int),
    {
        let entry = match read_entry(a, i) {
            Ok(p) => p,
            Err(e) => {
                return Err(e);
            }
        };
        let ghost pre = es.deep_view();
        proof {
            assert(entry.0.deep_view() =~= entry.0@);
            assert(entry.1.deep_view() =~= entry.1@);
            assert(entry.deep_view() == ar[i as int]);
        }
        es.push(entry);
        proof {
            assert(es.deep_view() =~= pre.push(ar[i as int]));
            assert(ar.subrange(0, i + 1) =~= ar.subrange(0, i as int).push(ar[i as int]));
        }
    }
    proof {
        assert(ar.subrange(0, n as int) =~= ar);
    }
    Ok(es)
}

/// Serialize the volume keyed `volume_id` into the bytes of a zip archive:
/// the entry list of [`export_entries`], written through the container
/// layer. Fails whenever the volume or one of its declared rows is absent;
/// succeeds whenever, besides that, the declared entry names are distinct
/// and every entry fits the container format.
pub fn create_ziparchive(
    store: &crate::store::KeyedStore,
    volume_id: crate::models::VolumeId,
) -> (r: Result<Vec<u8>, AppError>)
    requires
        store.wf(),
    ensures
        !(store.has_volume(volume_id) && export_rows_present(*store, volume_id)) ==> r is Err,
        r is Ok ==> store.has_volume(volume_id) && export_rows_present(*store, volume_id),
        store.has_volume(volume_id) && export_rows_present(*store, volume_id) && import_names_ok(
            store.volume_at(volume_id),
        ) && entries_exportable(export_entry_list(*store, volume_id)) ==> r is Ok,
        r matches Ok(bytes) ==> (import_names_ok(store.volume_at(volume_id)) ==> zip_entries_of(
            bytes@,
        ) == Some(export_entry_list(*store, volume_id)) && zip_readable(bytes@)),
{
    let ghost wanted = store.has_volume(volume_id) && export_rows_present(*store, volume_id)
        && import_names_ok(store.volume_at(volume_id)) && entries_exportable(
        export_entry_list(*store, volume_id),
    );
    let es = match export_entries(store, volume_id) {
        Ok(es) => es,
        Err(e) => {
            return Err(e);
        }
    };
    let ghost esv = es.deep_view();
    proof {
        if import_names_ok(store.volume_at(volume_id)) {
            lemma_export_list_unique(*store, volume_id);
        }
    }
    let mut w = new_archive_writer();
    let n = es.len();
    proof {
        assert(aw_entries(w) =~= esv.subrange(0, 0));
    }
    for i in 0..n
        invariant
            n == es@.len(),
            esv == es.deep_view(),
            esv == export_entry_list(*store, volume_id),
            wanted == (store.has_volume(volume_id) && export_rows_present(*store, volume_id)
                && import_names_ok(store.volume_at(volume_id)) && entries_exportable(esv)),
            wanted ==> entry_names_unique(esv),
            aw_entries(w) == esv.subrange(0, i as int),
            aw_ok(w),
    {
        proof {
            assert(es.deep_view()[i as int] == es@[i as int].deep_view());
            assert(es@[i as int].0.deep_view() =~= es@[i as int].0@);
            assert(es@[i as int].1.deep_view() =~= es@[i as int].1@);
        }
        match write_entry(&mut w, &es[i].0, &es[i].1) {
            Ok(()) => {
                proof {
                    assert(esv.subrange(0, i + 1) =~= esv.subrange(0, i as int).push(
                        esv[i as int],
                    ));
                }
            }
            Err(e) => {
                proof {
                    if wanted {
                        assert(utf8_ok(esv[i as int].0) && esv[i as int].0.len() <= 65535
                            && esv[i as int].1.len() <= 0xFFFF_FFFF);
                        assert forall|j: int| 0 <= j < aw_entries(w).len() implies (
                        #[trigger] aw_entries(w)[j]).0 != esv[i as int].0 by {
                            assert(aw_entries(w)[j] == esv[j]);
                        }
                        assert(false);
                    }
                }
                return Err(e);
            }
        }
    }
    proof {
        assert(aw_entries(w) =~= esv) by {
            assert(esv.subrange(0, n as int) =~= esv);
        }
    }
    finish_archive(w)
}

/// The file name an export is offered under: the volume's title with the
/// archive suffix.
pub fn export_file_name(title: &Vec<u8>) -> (r: Vec<u8>)
    ensures
        r@ == title@ + (".mbz.zip").spec_bytes(),
{
    let mut r = title.clone();
    let mut suffix = (".mbz.zip").as_bytes_vec();
    r.append(&mut suffix);
    proof {
        assert(r@ =~= title@ + (".mbz.zip").spec_bytes());
    }
    r
}

} // verus!