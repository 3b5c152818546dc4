//! The archive packager: writes the manifest's records, stored uncompressed
//! and with fixed permission bits, into an in-memory zip-shaped container,
//! strictly in list order.

use vstd::prelude::*;
use crate::errors::PackError;

verus! {

#[verifier::external_type_specification]
#[verifier::external_body]
pub struct ExZipError(zip::result::ZipError);

#[verifier::external_type_specification]
#[verifier::external_body]
pub struct ExIoError(std::io::Error);

/// Zip's archive writer over an in-memory cursor. Verus refuses the writer
/// type's own generic declaration (its parameter is bound by traits Verus
/// does not know), so it is held opaque in a private field and spoken of
/// only through `recs`.
#[verifier::external_body]
pub struct VpkWriter {
    inner: zip::write::ZipWriter<std::io::Cursor<Vec<u8>>>,
}

/// The records a writer holds so far, in the order they were written: each a
/// destination name and the bytes stored under it.
pub uninterp spec fn recs(w: VpkWriter) -> Seq<(Seq<char>, Seq<u8>)>;

/// The writer is healthy: it is open (neither finished nor poisoned by a
/// refused write), the record opened last — with this type's operations,
/// whenever it holds a record at all — still stands open, and every record
/// stays within the plain stored-size bound. Over the in-memory cursor every
/// further operation on a healthy writer succeeds deterministically.
pub uninterp spec fn writer_ok(w: VpkWriter) -> bool;

/// The most bytes one stored record may hold before the writer refuses it
/// (the plain, non-zip64 size field's limit).
pub const RECORD_SIZE_LIMIT: u64 = 0xFFFF_FFFF;

/// The bytes of the finished container holding exactly these records, stored
/// uncompressed with this crate's fixed entry metadata. The container is a
/// function of the records alone.
pub uninterp spec fn container_of(records: Seq<(Seq<char>, Seq<u8>)>) -> Seq<u8>;

/// Relies on zip::write::ZipWriter::new over an in-memory cursor: a fresh
/// writer holds no records and is healthy.
#[verifier::external_body]
fn zip_writer_new() -> (w: VpkWriter)
    ensures
        recs(w) == Seq::<(Seq<char>, Seq<u8>)>::empty(),
        writer_ok(w),
{
    VpkWriter { inner: zip::write::ZipWriter::new(std::io::Cursor::new(Vec::new())) }
}

/// Relies on zip::write::ZipWriter::start_file, configured stored
/// (uncompressed) with unix permissions 0o755: a new, still empty record
/// named `name` stands opened at the end of the archive, after any record
/// open before. On a healthy in-memory writer this cannot fail: closing the
/// record before it and writing the new header are plain cursor writes, and
/// the name's length is cast, never checked.
#[verifier::external_body]
fn zip_start_file(w: &mut VpkWriter, name: &str) -> (r:
    Result<(), zip::result::ZipError>)
    requires
        writer_ok(*old(w)),
    ensures
        r is Ok,
        writer_ok(*final(w)),
        recs(*final(w)) == recs(*old(w)).push((name@, Seq::<u8>::empty())),
{
    let options = zip::write::FileOptions::default()
        .compression_method(zip::CompressionMethod::Stored)
        .unix_permissions(0o755);
    w.inner.start_file(name, options)
}

/// Relies on std::io::Write::write_all for zip's writer: on success the
/// bytes of `buf` stand appended to the record opened last, and the writer
/// stays healthy. The write is refused — poisoning the writer — exactly
/// when it would push the open record past the stored-size bound, so within
/// that bound it succeeds. On an error the writer's state is otherwise left
/// unspecified.
#[verifier::external_body]
fn zip_write_all(w: &mut VpkWriter, buf: &[u8]) -> (r: Result<
    (),
    std::io::Error,
>)
    requires
        writer_ok(*old(w)),
        recs(*old(w)).len() > 0,
    ensures
        recs(*old(w)).last().1.len() + buf@.len() <= RECORD_SIZE_LIMIT ==> r is Ok,
        r is Ok ==> writer_ok(*final(w)),
        r is Ok ==> recs(*final(w)) == recs(*old(w)).update(
            recs(*old(w)).len() - 1,
            (recs(*old(w)).last().0, recs(*old(w)).last().1 + buf@),
        ),
{
    std::io::Write::write_all(&mut w.inner, buf)
}

/// Relies on zip::write::ZipWriter::finish and std::io::Cursor::into_inner:
/// the central directory is written and the returned bytes are the finished
/// container holding the writer's records. On a healthy in-memory writer
/// this cannot fail: it is plain cursor writes alone.
#[verifier::external_body]
fn zip_finish(w: VpkWriter) -> (r: Result<
    Vec<u8>,
    zip::result::ZipError,
>)
    requires
        writer_ok(w),
    ensures
        r is Ok,
        r matches Ok(bytes) ==> bytes@ == container_of(recs(w)),
{
    let mut w = w;
    match w.inner.finish() {
        Ok(c) => Ok(c.into_inner()),
        Err(e) => Err(e),
    }
}

/// One record to pack: a destination name and the source bytes to store
/// under it.
#[derive(Debug)]
pub struct FileEntry {
    /// Relative, slash-separated destination inside the container.
    pub dst: String,
    /// The bytes to store under that destination.
    pub data: Vec<u8>,
}

/// The records a list of files stands for, in order.
pub open spec fn file_recs(files: Seq<FileEntry>) -> Seq<(Seq<char>, Seq<u8>)> {
    files.map_values(|f: FileEntry| (f.dst@, f.data@))
}

/// The records written for a manifest are, name for name and byte for byte,
/// the manifest's own destinations and contents, in the manifest's order —
/// none dropped, none added, none reordered.
pub proof fn lemma_file_recs_exact(files: Seq<FileEntry>)
    ensures
        file_recs(files).len() == files.len(),
        forall|i: int| 0 <= i < files.len() ==> file_recs(files)[i] == (files[i].dst@, files[i].data@),
{
}

/// Packs the files into a container held in memory: one stored record per
/// file, in list order, then the finished container's bytes. The writer can
/// refuse only a record past the stored-size bound, so whenever every file
/// fits that bound the packing succeeds; any refusal aborts with
/// ContainerWriteFailure.
pub fn pack_vpk(files: &Vec<FileEntry>) -> (r: Result<Vec<u8>, PackError>)
    ensures
        r matches Err(e) ==> e == PackError::ContainerWriteFailure,
        r matches Ok(bytes) ==> bytes@ == container_of(file_recs(files@)),
        (forall|i: int| 0 <= i < files@.len()
            ==> (#[trigger] files@[i].data@).len() <= RECORD_SIZE_LIMIT) ==> r is Ok,
{
    let mut w = zip_writer_new();
    let mut i: usize = 0;
    while i < files.len()
        invariant
            i <= files@.len(),
            writer_ok(w),
            recs(w) == file_recs(files@.subrange(0, i as int)),
        decreases files@.len() - i,
    {
        let ghost before = recs(w);
        match zip_start_file(&mut w, files[i].dst.as_str()) {
            Ok(_) => {},
            Err(_) => {
                return Err(PackError::ContainerWriteFailure);
            },
        }
        match zip_write_all(&mut w, files[i].data.as_slice()) {
            Ok(_) => {},
            Err(_) => {
                proof {
                    let pre = before.push((files@[i as int].dst@, Seq::<u8>::empty()));
                    assert(pre.last().1.len() == 0);
                    assert(files@[i as int].data@.len() > RECORD_SIZE_LIMIT);
                }
                return Err(PackError::ContainerWriteFailure);
            },
        }
        proof {
            let started = before.push((files@[i as int].dst@, Seq::<u8>::empty()));
            assert(started.last().1 + files@[i as int].data@ =~= files@[i as int].data@);
            assert(recs(w) =~= before.push((files@[i as int].dst@, files@[i as int].data@)));
            assert(recs(w) =~= file_recs(files@.subrange(0, i + 1)));
        }
        i += 1;
    }
    proof {
        assert(files@.subrange(0, files@.len() as int) =~= files@);
    }
    match zip_finish(w) {
        Ok(bytes) => Ok(bytes),
        Err(_) => Err(PackError::ContainerWriteFailure),
    }
}

} // verus!
