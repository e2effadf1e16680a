//! The trusted boundary to the `zip` crate: an archive is written into an
//! in-memory buffer, and its contents are modelled as the sequence of
//! (name, bytes) entries written so far.

use vstd::prelude::*;

verus! {

#[verifier::external_type_specification]
#[verifier::external_body]
pub struct ExZipError(zip::result::ZipError);

/// An archive being written into an in-memory buffer. The writer itself is
/// the `zip` crate's; nothing inside it is visible here, so its state is
/// spoken of only through `archive_contents`.
#[verifier::external_body]
pub struct ArchiveWriter {
    inner: zip::ZipWriter<std::io::Cursor<Vec<u8>>>,
}

/// The entries an in-memory archive writer holds so far, in the order they
/// were written: the name each was started under, and its bytes.
pub uninterp spec fn archive_contents(w: ArchiveWriter) -> Seq<(Seq<char>, Seq<u8>)>;

/// The entries a finished archive's bytes decode to, in order: what reading
/// the archive back gives, as a function of the bytes alone.
pub uninterp spec fn decoded_entries(bytes: Seq<u8>) -> Seq<(Seq<char>, Seq<u8>)>;

/// The names the archive's entries stand under, in order.
pub open spec fn archive_names(entries: Seq<(Seq<char>, Seq<u8>)>) -> Seq<Seq<char>> {
    entries.map_values(|e: (Seq<char>, Seq<u8>)| e.0)
}

/// A name the archive format can record: its UTF-8 encoding fits the
/// format's 16-bit name-length field.
pub open spec fn name_fits(name: Seq<char>) -> bool {
    vstd::utf8::encode_utf8(name).len() <= 0xFFFF
}

/// Contents the default options can record without the format's 64-bit
/// extensions: at most 32 bits' worth of bytes.
pub open spec fn data_fits(data: Seq<u8>) -> bool {
    data.len() <= 0xFFFF_FFFF
}

/// Relies on zip::ZipWriter::new over an empty in-memory buffer: the new
/// writer holds no entries.
#[verifier::external_body]
pub(crate) fn new_archive_writer() -> (w: ArchiveWriter)
    ensures
        archive_contents(w) == Seq::<(Seq<char>, Seq<u8>)>::empty(),
{
    ArchiveWriter { inner: zip::ZipWriter::new(std::io::Cursor::new(Vec::new())) }
}

/// Relies on zip::ZipWriter::start_file followed by the writer's
/// std::io::Write::write_all: on success the archive holds one further
/// entry, under the given name and with exactly the given bytes. Into an
/// in-memory buffer the pair can fail only on a name already present (it is
/// refused before anything changes), a name too long for the format's
/// length field (the started entry is aborted), or contents past the 32-bit
/// size threshold, which the default options do not record; so a fresh,
/// recordable entry is accepted.
#[verifier::external_body]
pub(crate) fn append_archive_entry(
    w: &mut ArchiveWriter,
    name: &str,
    data: &[u8],
) -> (r: Result<(), zip::result::ZipError>)
    ensures
        r is Ok ==> archive_contents(*final(w)) == archive_contents(*old(w)).push(
            (name@, data@),
        ),
        (!archive_names(archive_contents(*old(w))).contains(name@) && name_fits(name@)
            && data_fits(data@)) ==> r is Ok,
{
    w.inner.start_file(name, zip::write::SimpleFileOptions::default())?;
    std::io::Write::write_all(&mut w.inner, data)?;
    Ok(())
}

/// Relies on zip::ZipWriter::finish: the returned buffer holds a
/// well-formed archive whose entries decode back to exactly what was
/// written. Finishing writes only into the in-memory buffer and cannot
/// fail: a writer of this type arises only from the wrappers here, and an
/// entry whose start failed is aborted by the crate rather than kept
/// half-written.
#[verifier::external_body]
pub(crate) fn finish_archive(w: ArchiveWriter) -> (r: Result<Vec<u8>, zip::result::ZipError>)
    ensures
        r is Ok,
        r matches Ok(bytes) ==> decoded_entries(bytes@) == archive_contents(w),
{
    w.inner.finish().map(|c| c.into_inner())
}

} // verus!
