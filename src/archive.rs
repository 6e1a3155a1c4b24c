//! Reading the members of a downloaded zip bundle.

use vstd::prelude::*;
use crate::ivpn::ArchiveEntry;
use crate::provider::ProviderError;
use std::io::Cursor;
use zip::result::ZipError;
use zip::ZipArchive;

verus! {

#[verifier::external_type_specification]
#[verifier::external_body]
#[verifier::reject_recursive_types(R)]
pub struct ExZipArchive<R>(ZipArchive<R>);

#[verifier::external_type_specification]
#[verifier::external_body]
pub struct ExZipError(ZipError);

#[verifier::external_type_specification]
#[verifier::external_body]
#[verifier::reject_recursive_types(T)]
pub struct ExCursor<T>(Cursor<T>);

/// Whether `zip::ZipArchive::new` accepts the archive held in `bytes`.
pub uninterp spec fn zip_opens(bytes: Seq<u8>) -> bool;

/// What `zip::ZipArchive::len` gives for the archive held in `bytes`.
pub uninterp spec fn zip_member_count(bytes: Seq<u8>) -> nat;

/// What `zip::ZipArchive::by_index` gives for member `i` of the archive held
/// in `bytes`: its file name, decompressed bytes and directory flag, or
/// nothing where the member cannot be read.
pub uninterp spec fn zip_member(bytes: Seq<u8>, i: int) -> Option<(Seq<char>, Seq<u8>, bool)>;

pub open spec fn entry_view(e: ArchiveEntry) -> (Seq<char>, Seq<u8>, bool) {
    (e.name@, e.contents@, e.is_directory)
}

/// An opened archive, with the bytes it was opened from.
pub struct ZipBundle {
    archive: ZipArchive<Cursor<Vec<u8>>>,
    source: Ghost<Seq<u8>>,
}

impl ZipBundle {
    pub closed spec fn source(&self) -> Seq<u8> {
        self.source@
    }
}

/// Relies on `zip::ZipArchive::new`: reads the central directory of the
/// archive held in `bytes`, or fails on a corrupt one.
#[verifier::external_body]
fn open_archive(bytes: Vec<u8>) -> (r: Result<ZipBundle, ZipError>)
    ensures
        r is Ok <==> zip_opens(bytes@),
        r matches Ok(b) ==> b.source() == bytes@,
{
    let source = Ghost(bytes@);
    let archive = ZipArchive::new(Cursor::new(bytes))?;
    Ok(ZipBundle { archive, source })
}

/// Relies on `zip::ZipArchive::len`: the number of members.
#[verifier::external_body]
fn member_count(bundle: &ZipBundle) -> (r: usize)
    ensures
        r == zip_member_count(bundle.source()),
{
    bundle.archive.len()
}

/// Relies on `zip::ZipArchive::by_index`: member `i`, as its file name (empty
/// where the stored path is unsafe), its decompressed bytes, and whether it
/// is a directory.
#[verifier::external_body]
fn read_member(bundle: &mut ZipBundle, i: usize) -> (r: Result<ArchiveEntry, ZipError>)
    ensures
        final(bundle).source() == old(bundle).source(),
        r is Ok <==> zip_member(old(bundle).source(), i as int) is Some,
        r matches Ok(e) ==> entry_view(e) == zip_member(old(bundle).source(), i as int)->Some_0,
{
    let mut file = bundle.archive.by_index(i)?;
    let enclosed = file.enclosed_name();
    let name = enclosed.as_ref().and_then(|p| p.file_name()).and_then(|s| s.to_str());
    let mut contents: Vec<u8> = Vec::new();
    std::io::Read::read_to_end(&mut file, &mut contents)?;
    Ok(ArchiveEntry { name: name.unwrap_or("").to_owned(), contents, is_directory: file.is_dir() })
}

/// Relies on `ZipError`'s `Display`: a description of the failure.
#[verifier::external_body]
fn zip_error_text(e: &ZipError) -> (r: String) {
    e.to_string()
}

/// Whether every member of the archive held in `bytes` can be read.
pub open spec fn all_members_read(bytes: Seq<u8>) -> bool {
    forall|i: int| 0 <= i < zip_member_count(bytes) ==> (#[trigger] zip_member(bytes, i)) is Some
}

/// Every member of the zip archive held in `bytes`, in the archive's order;
/// a corrupt archive or an unreadable member fails the whole read.
pub fn read_archive(bytes: Vec<u8>) -> (r: Result<Vec<ArchiveEntry>, ProviderError>)
    ensures
        r is Ok <==> zip_opens(bytes@) && all_members_read(bytes@),
        r matches Ok(es) ==> es@.len() == zip_member_count(bytes@) && forall|i: int|
            0 <= i < es@.len() ==> entry_view(#[trigger] es@[i]) == zip_member(bytes@, i)->Some_0,
        r matches Err(e) ==> e is InvalidArchive,
{
    let ghost src = bytes@;
    let mut bundle = match open_archive(bytes) {
        Ok(b) => b,
        Err(e) => return Err(ProviderError::InvalidArchive(zip_error_text(&e))),
    };
    let n = member_count(&bundle);
    let mut entries: Vec<ArchiveEntry> = Vec::new();
    let mut i: usize = 0;
    while i < n
        invariant
            i <= n,
            n == zip_member_count(src),
            bundle.source() == src,
            src == bytes@,
            entries@.len() == i,
            forall|j: int| 0 <= j < i ==> (#[trigger] zip_member(src, j)) is Some,
            forall|j: int|
                0 <= j < i ==> entry_view(#[trigger] entries@[j]) == zip_member(src, j)->Some_0,
        decreases n - i,
    {
        match read_member(&mut bundle, i) {
            Ok(e) => entries.push(e),
            Err(e) => {
                assert(zip_member(src, i as int) is None);
                assert(!all_members_read(src));
                return Err(ProviderError::InvalidArchive(zip_error_text(&e)));
            },
        }
        i += 1;
    }
    Ok(entries)
}

} // verus!
