//! Reading a zip archive that is held in memory, entry by entry, through
//! the `zip` crate.

use std::io::Cursor;
use std::io::Read;
use vstd::prelude::*;
use crate::path::SEPARATOR;
use zip::result::ZipError;
use zip::ZipArchive;

verus! {

/// One record of an archive.
#[derive(Clone, Debug, PartialEq, Eq)]
pub struct ArchiveEntry {
    /// The path as the archive names it, the archive's top-level folder
    /// included.
    pub path: Vec<u8>,
    /// The content, decompressed; empty for a directory.
    pub data: Vec<u8>,
}

impl View for ArchiveEntry {
    type V = (Seq<u8>, Seq<u8>);

    open spec fn view(&self) -> (Seq<u8>, Seq<u8>) {
        (self.path@, self.data@)
    }
}

/// A path that stands for a directory: it ends in a separator.
pub open spec fn is_directory(path: Seq<u8>) -> bool {
    path.len() > 0 && path.last() == SEPARATOR
}

impl ArchiveEntry {
    /// Tells whether the entry stands for a directory.
    pub fn is_directory(&self) -> (directory: bool)
        ensures
            directory == is_directory(self.path@),
    {
        let size: usize = self.path.len();
        size > 0 && self.path[size - 1] == SEPARATOR
    }

    /// The number of bytes of content.
    pub fn content_length(&self) -> (length: usize)
        ensures
            length == self.data@.len(),
    {
        self.data.len()
    }
}

/// `zip::ZipArchive`, held without a look inside: `listing_of` says what an
/// archive over bytes in memory holds.
#[verifier::external_type_specification]
#[verifier::external_body]
#[verifier::reject_recursive_types(R)]
pub struct ExZipArchive<R>(ZipArchive<R>);

/// `std::io::Cursor`, the reader over the bytes of an archive.
#[verifier::external_type_specification]
#[verifier::external_body]
#[verifier::reject_recursive_types(T)]
pub struct ExCursor<T>(Cursor<T>);

/// `zip::result::ZipError`, which is only ever tested for being there.
#[verifier::external_type_specification]
#[verifier::external_body]
pub struct ExZipError(ZipError);

/// What `ZipArchive::new` makes of a byte string: `None` where it refuses
/// the bytes, else path and content of each entry, `None` standing for an
/// entry that cannot be read.
pub uninterp spec fn archive_listing(bytes: Seq<u8>) -> Option<Seq<Option<(Seq<u8>, Seq<u8>)>>>;

/// Path and content of each entry of an open archive, `None` standing for
/// an entry that cannot be read.
pub uninterp spec fn listing_of(archive: ZipArchive<Cursor<Vec<u8>>>) -> Seq<Option<(Seq<u8>, Seq<u8>)>>;

/// `ZipArchive::new` on a cursor over the bytes: it reads the central
/// directory, and what it finds is a function of the bytes.
#[verifier::external_body]
pub(crate) fn open_archive(bytes: Vec<u8>) -> (opened: Result<ZipArchive<Cursor<Vec<u8>>>, ZipError>)
    ensures
        match opened {
            Ok(archive) => archive_listing(bytes@) == Some(listing_of(archive)),
            Err(_) => archive_listing(bytes@) is None,
        },
{
    ZipArchive::new(Cursor::new(bytes))
}

/// `ZipArchive::len`: the number of entries.
#[verifier::external_body]
pub(crate) fn entry_count(archive: &ZipArchive<Cursor<Vec<u8>>>) -> (count: usize)
    ensures
        count == listing_of(*archive).len(),
{
    archive.len()
}

/// Reads the entry at `index`: its name as `ZipFile::name` gives it, and
/// its content read to the end, which decompresses it and checks its
/// checksum. `None` where the entry cannot be opened or read. Reading moves
/// the cursor and leaves the entries as they are.
///
/// The entry is opened with `ZipArchive::by_index_decrypt` and an empty
/// password, which opens an entry that is not encrypted as `by_index` does
/// and reports a refused password as a value; `by_index` unwraps that value
/// and panics on an entry that announces AES without being encrypted.
#[verifier::external_body]
pub(crate) fn read_entry(
    archive: &mut ZipArchive<Cursor<Vec<u8>>>,
    index: usize,
) -> (read: Option<ArchiveEntry>)
    ensures
        listing_of(*final(archive)) == listing_of(*old(archive)),
        index < listing_of(*old(archive)).len() ==> match read {
            Some(entry) => listing_of(*old(archive))[index as int] == Some(entry@),
            None => listing_of(*old(archive))[index as int] is None,
        },
{
    let mut file = archive.by_index_decrypt(index, &[]).ok()?.ok()?;
    let path = file.name().as_bytes().to_vec();
    let mut data = Vec::new();
    file.read_to_end(&mut data).ok()?;
    Some(ArchiveEntry { path, data })
}

} // verus!
