//! Zip archives held in memory, as the `zip` crate reads them.

use std::io::{Cursor, Read};
use vstd::prelude::*;

verus! {

/// The number of entries of a zip archive, or why it is not one.
pub uninterp spec fn zip_count(archive: Seq<u8>) -> Result<nat, Seq<char>>;

/// The name of an entry of a zip archive, or why it cannot be had.
pub uninterp spec fn zip_name(archive: Seq<u8>, index: nat) -> Result<Seq<char>, Seq<char>>;

/// The unpacked content of an entry of a zip archive, or why it cannot be had.
pub uninterp spec fn zip_content(archive: Seq<u8>, index: nat) -> Result<Seq<u8>, Seq<char>>;

/// What a step of reading an archive holds, for a text or a failure in words.
pub open spec fn text_or_words(result: Result<String, String>) -> Result<Seq<char>, Seq<char>> {
    match result {
        Ok(text) => Ok(text@),
        Err(words) => Err(words@),
    }
}

/// What a step of reading an archive holds, for bytes or a failure in words.
pub open spec fn bytes_or_words(result: Result<Vec<u8>, String>) -> Result<Seq<u8>, Seq<char>> {
    match result {
        Ok(bytes) => Ok(bytes@),
        Err(words) => Err(words@),
    }
}

/// `zip::ZipArchive::new` on the bytes, then `zip::ZipArchive::len`. The outcome is a
/// function of the bytes: the number of entries of the central directory, or the
/// error as it is shown. How an archive is laid out is left to the crate.
#[verifier::external_body]
pub(crate) fn zip_entry_count(archive: &[u8]) -> (count: Result<usize, String>)
    ensures
        zip_count(archive@) == match count {
            Ok(count) => Ok::<nat, Seq<char>>(count as nat),
            Err(words) => Err(words@),
        },
{
    match zip::ZipArchive::new(Cursor::new(archive)) {
        Ok(archive) => Ok(archive.len()),
        Err(error) => Err(error.to_string()),
    }
}

/// `zip::ZipArchive::new` on the bytes, `zip::ZipArchive::by_index`, then
/// `zip::read::ZipFile::name`. The outcome is a function of the bytes and the index:
/// the name of the entry, or the error as it is shown.
#[verifier::external_body]
pub(crate) fn zip_entry_name(archive: &[u8], index: usize) -> (name: Result<String, String>)
    ensures
        text_or_words(name) == zip_name(archive@, index as nat),
{
    let mut archive = zip::ZipArchive::new(Cursor::new(archive)).map_err(|e| e.to_string())?;
    let entry = archive.by_index(index).map_err(|e| e.to_string())?;
    Ok(entry.name().to_owned())
}

/// `zip::ZipArchive::new` on the bytes, `zip::ZipArchive::by_index`, then
/// `read_to_end` on the entry. The outcome is a function of the bytes and the index:
/// the unpacked content of the entry, or the error as it is shown.
#[verifier::external_body]
pub(crate) fn zip_entry_content(archive: &[u8], index: usize) -> (content: Result<Vec<u8>, String>)
    ensures
        bytes_or_words(content) == zip_content(archive@, index as nat),
{
    let mut archive = zip::ZipArchive::new(Cursor::new(archive)).map_err(|e| e.to_string())?;
    let mut entry = archive.by_index(index).map_err(|e| e.to_string())?;
    let mut content = Vec::new();
    entry.read_to_end(&mut content).map_err(|e| e.to_string())?;
    Ok(content)
}

} // verus!
