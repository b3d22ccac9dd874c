use vstd::prelude::*;
use std::io::Cursor;
use std::io::Read;

verus! {

#[verifier::external_type_specification]
#[verifier::external_body]
#[verifier::reject_recursive_types(T)]
pub struct ExCursor<T>(Cursor<T>);

#[verifier::external_type_specification]
#[verifier::external_body]
#[verifier::reject_recursive_types(R)]
pub struct ExZipArchive<R>(zip::ZipArchive<R>);

/// The sanitized name of each entry of an opened archive, in index order.
/// An entry whose name escapes the archive root, is not valid UTF-8, or
/// cannot be opened at all, has no name here.
pub uninterp spec fn archive_entry_names(a: zip::ZipArchive<Cursor<Vec<u8>>>) -> Seq<
    Option<Seq<char>>,
>;

/// The full contents of each entry of an opened archive, in index order.
/// An entry that cannot be opened or read has no contents here.
pub uninterp spec fn archive_entry_datas(a: zip::ZipArchive<Cursor<Vec<u8>>>) -> Seq<
    Option<Seq<u8>>,
>;

/// What a byte string parses to as a ZIP archive, when it parses at all:
/// the entry names and entry contents, in index order. Parsing an in-memory
/// byte string depends on those bytes alone.
pub uninterp spec fn parsed_archive(bytes: Seq<u8>) -> Option<
    (Seq<Option<Seq<char>>>, Seq<Option<Seq<u8>>>),
>;

/// Relies on zip::ZipArchive::new over an in-memory cursor: reading the
/// central directory of a byte string is a function of those bytes alone,
/// and succeeds or fails accordingly.
#[verifier::external_body]
pub fn open_archive(bytes: &Vec<u8>) -> (r: Option<zip::ZipArchive<Cursor<Vec<u8>>>>)
    ensures
        match r {
            Some(a) => parsed_archive(bytes@) matches Some(m) && archive_entry_names(a) == m.0
                && archive_entry_datas(a) == m.1 && m.0.len() == m.1.len(),
            None => parsed_archive(bytes@) is None,
        },
{
    zip::ZipArchive::new(Cursor::new(bytes.clone())).ok()
}

/// Relies on zip::ZipArchive::len: the number of entries the central
/// directory holds.
#[verifier::external_body]
pub fn archive_len(a: &zip::ZipArchive<Cursor<Vec<u8>>>) -> (r: usize)
    ensures
        r == archive_entry_names(*a).len(),
        r == archive_entry_datas(*a).len(),
{
    a.len()
}

/// Relies on zip::ZipArchive::by_index and zip::ZipFile::enclosed_name:
/// the sanitized name of entry `i`, or nothing where the entry cannot be
/// opened, its name would escape the archive root, or its name is not
/// valid UTF-8. Reading leaves the archive's directory as it was.
#[verifier::external_body]
pub fn entry_name(a: &mut zip::ZipArchive<Cursor<Vec<u8>>>, i: usize) -> (r: Option<String>)
    requires
        i < archive_entry_names(*old(a)).len(),
    ensures
        archive_entry_names(*final(a)) == archive_entry_names(*old(a)),
        archive_entry_datas(*final(a)) == archive_entry_datas(*old(a)),
        match r {
            Some(s) => archive_entry_names(*old(a))[i as int] == Some(s@),
            None => archive_entry_names(*old(a))[i as int] is None,
        },
{
    match a.by_index(i) {
        Ok(f) => match f.enclosed_name() {
            Some(p) => p.to_str().map(|s| s.to_string()),
            None => None,
        },
        Err(_) => None,
    }
}

/// Relies on zip::ZipArchive::by_index and std::io::Read::read_to_end: the
/// full decompressed contents of entry `i`, or nothing where the entry
/// cannot be opened or read. Reading leaves the archive's directory as it
/// was.
#[verifier::external_body]
pub fn entry_data(a: &mut zip::ZipArchive<Cursor<Vec<u8>>>, i: usize) -> (r: Option<Vec<u8>>)
    requires
        i < archive_entry_datas(*old(a)).len(),
    ensures
        archive_entry_names(*final(a)) == archive_entry_names(*old(a)),
        archive_entry_datas(*final(a)) == archive_entry_datas(*old(a)),
        match r {
            Some(v) => archive_entry_datas(*old(a))[i as int] == Some(v@),
            None => archive_entry_datas(*old(a))[i as int] is None,
        },
{
    match a.by_index(i) {
        Ok(mut f) => {
            let mut buf: Vec<u8> = Vec::new();
            match f.read_to_end(&mut buf) {
                Ok(_) => Some(buf),
                Err(_) => None,
            }
        },
        Err(_) => None,
    }
}

} // verus!
