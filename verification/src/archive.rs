//! Trusted interface to the archive container library.
//!
//! The archive is modelled by `zip_entries`: the sequence of entries that an
//! opened archive holds, each with its name, sizes and the byte stream that
//! reading it yields. Opening the same bytes always yields the same model
//! (`zip_entries_of`), which is what the scan laws rest on.
use std::io::Read;
use vstd::prelude::*;

verus! {

#[verifier::external_type_specification]
#[verifier::external_body]
#[verifier::reject_recursive_types(T)]
pub struct ExCursor<T>(std::io::Cursor<T>);

#[verifier::external_type_specification]
#[verifier::external_body]
#[verifier::reject_recursive_types(R)]
pub struct ExZipArchive<R>(zip::ZipArchive<R>);

/// What one archive entry looks like to the library: its stored metadata,
/// whether the container library can hand it out and fully decompress it,
/// and the byte stream that reading it yields.
pub struct EntryModel {
    pub name: Seq<char>,
    pub compressed_size: u64,
    pub uncompressed_size: u64,
    /// Whether asking the container for this entry succeeds.
    pub accessible: bool,
    /// Whether decompressing the entry to its end succeeds.
    pub fully_readable: bool,
    /// The bytes that reading the entry yields (the maximal prefix the
    /// decoder can produce, the whole stream when `fully_readable`).
    pub data: Seq<u8>,
}

/// The entries of an opened archive.
pub uninterp spec fn zip_entries(a: zip::ZipArchive<std::io::Cursor<Vec<u8>>>) -> Seq<EntryModel>;

/// The entries that a given byte buffer encodes, or `None` when the buffer is
/// not a readable archive. Opening is a pure function of the bytes.
pub uninterp spec fn zip_entries_of(bytes: Seq<u8>) -> Option<Seq<EntryModel>>;

/// Relies on zip's `ZipArchive::new`: parsing the central directory of an
/// in-memory buffer is deterministic in the buffer's bytes.
#[verifier::external_body]
pub(crate) fn archive_open(bytes: &[u8]) -> (r: Option<zip::ZipArchive<std::io::Cursor<Vec<u8>>>>)
    ensures
        (r is Some) == (zip_entries_of(bytes@) is Some),
        r matches Some(a) ==> Some(zip_entries(a)) == zip_entries_of(bytes@),
{
    zip::ZipArchive::new(std::io::Cursor::new(bytes.to_vec())).ok()
}

/// Relies on zip's `ZipArchive::len`: the number of entries in the central
/// directory.
#[verifier::external_body]
pub(crate) fn archive_len(a: &zip::ZipArchive<std::io::Cursor<Vec<u8>>>) -> (r: usize)
    ensures
        r == zip_entries(*a).len(),
{
    a.len()
}

/// Relies on zip's `ZipArchive::by_index` and the `name`, `compressed_size`
/// and `size` accessors of `ZipFile`: whether an entry can be handed out, and
/// its stored metadata, depend on the archive bytes alone.
#[verifier::external_body]
pub(crate) fn entry_meta(a: &mut zip::ZipArchive<std::io::Cursor<Vec<u8>>>, i: usize) -> (r: Option<
    (String, u64, u64),
>)
    requires
        i < zip_entries(*old(a)).len(),
    ensures
        zip_entries(*final(a)) == zip_entries(*old(a)),
        (r is Some) == zip_entries(*old(a))[i as int].accessible,
        r matches Some(m) ==> {
            let e = zip_entries(*old(a))[i as int];
            m.0@ == e.name && m.1 == e.compressed_size && m.2 == e.uncompressed_size
        },
{
    match a.by_index(i) {
        Ok(f) => Some((f.name().to_string(), f.compressed_size(), f.size())),
        Err(_) => None,
    }
}

/// Relies on zip's `ZipArchive::by_index` and `std::io::Read::read_exact`:
/// decompressing a fixed prefix of an entry of an in-memory buffer is
/// deterministic, and succeeds exactly when the decoder can produce `n` bytes.
#[verifier::external_body]
pub(crate) fn entry_read_prefix(
    a: &mut zip::ZipArchive<std::io::Cursor<Vec<u8>>>,
    i: usize,
    n: usize,
) -> (r: Option<Vec<u8>>)
    requires
        i < zip_entries(*old(a)).len(),
    ensures
        zip_entries(*final(a)) == zip_entries(*old(a)),
        ({
            let e = zip_entries(*old(a))[i as int];
            &&& (r is Some) == (e.accessible && n <= e.data.len())
            &&& (r matches Some(v) ==> v@ == e.data.take(n as int))
        }),
{
    let mut f = a.by_index(i).ok()?;
    let mut buf = vec![0u8; n];
    f.read_exact(&mut buf).ok()?;
    Some(buf)
}

/// Relies on zip's `ZipArchive::by_index` and `std::io::Read::read_to_end`:
/// fully decompressing an entry of an in-memory buffer is deterministic.
#[verifier::external_body]
pub(crate) fn entry_read_all(a: &mut zip::ZipArchive<std::io::Cursor<Vec<u8>>>, i: usize) -> (r:
    Option<Vec<u8>>)
    requires
        i < zip_entries(*old(a)).len(),
    ensures
        zip_entries(*final(a)) == zip_entries(*old(a)),
        ({
            let e = zip_entries(*old(a))[i as int];
            &&& (r is Some) == (e.accessible && e.fully_readable)
            &&& (r matches Some(v) ==> v@ == e.data)
        }),
{
    let mut f = a.by_index(i).ok()?;
    let mut buf = Vec::new();
    f.read_to_end(&mut buf).ok()?;
    Some(buf)
}

} // verus!
