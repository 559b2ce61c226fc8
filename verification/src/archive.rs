//! Release archives and the extraction of single files from them.
//!
//! An archive is held as the bytes of the downloaded file. Two containers
//! are read: a tar stream compressed with gzip, which is sequential, and a
//! zip file, whose index gives access to any entry. Decoding is the work of
//! the `flate2`, `tar` and `zip` crates. Which entry is taken for a wanted
//! file, which names in a zip file are refused because they lead out of
//! the directory of unpacking, and in which state an archive can be read,
//! is decided here.

use std::io::Read;
use vstd::prelude::*;
use vstd::string::*;
use vstd::utf8::encode_utf8;
use crate::entry_path::{
    component_bounds, components, entry_names_file, names_file, path_stays_inside, stays_inside,
    stretches, within,
};
use crate::error::{ArchiveFault, ToolError, ToolErrorView};

verus! {

/// What an archive tells of the name of one of its entries.
#[derive(Clone, Debug, PartialEq, Eq)]
pub enum EntryName {
    /// The entry could not be read.
    Unreadable,
    /// The entry's name is refused: it is no path that stays inside the
    /// directory into which the archive is unpacked.
    Unsafe,
    /// The path that the archive records for the entry.
    Named(Vec<u8>),
}

/// An entry's name as contracts speak of it.
pub enum ListedName {
    Unreadable,
    Unsafe,
    Named(Seq<u8>),
}

impl View for EntryName {
    type V = ListedName;

    open spec fn view(&self) -> ListedName {
        match self {
            EntryName::Unreadable => ListedName::Unreadable,
            EntryName::Unsafe => ListedName::Unsafe,
            EntryName::Named(path) => ListedName::Named(path@),
        }
    }
}

/// The views of a list of entry names.
pub open spec fn listing_view(names: Seq<EntryName>) -> Seq<ListedName> {
    Seq::new(names.len(), |i: int| names[i]@)
}

/// A file taken out of an archive.
#[derive(Clone, Debug, PartialEq, Eq)]
pub struct Extracted {
    /// The content of the file.
    pub data: Vec<u8>,
    /// The Unix permission bits that the archive records for the file, if
    /// it records any.
    pub mode: Option<u32>,
}

impl View for Extracted {
    type V = (Seq<u8>, Option<u32>);

    open spec fn view(&self) -> (Seq<u8>, Option<u32>) {
        (self.data@, self.mode)
    }
}

/// The names of the entries of the gzip-compressed tar stream `archive`, in
/// the order of the stream, as the `tar` crate reads them through the
/// `flate2` decoder. A place at which the stream cannot be read shows as
/// `Unreadable`.
pub uninterp spec fn tar_gz_listing(archive: Seq<u8>) -> Seq<ListedName>;

/// Content and permission bits of the entry at place `index` among the
/// entries of the gzip-compressed tar stream `archive`; `None` where the
/// stream has no such entry or its content cannot be read.
pub uninterp spec fn tar_gz_content(archive: Seq<u8>, index: int) -> Option<
    (Seq<u8>, Option<u32>),
>;

/// The names of the entries of the zip file `archive`, in the order of its
/// index, as the `zip` crate reads them: the recorded name of each entry
/// that the crate opens, and `Unreadable` for each that it does not.
/// `None` where the bytes are no zip file that the crate can open.
pub uninterp spec fn zip_listing(archive: Seq<u8>) -> Option<Seq<ListedName>>;

/// Content and permission bits of the entry at place `index` in the index
/// of the zip file `archive`; `None` where the file has no such entry or
/// its content cannot be read.
pub uninterp spec fn zip_content(archive: Seq<u8>, index: int) -> Option<(Seq<u8>, Option<u32>)>;

/// Walks the entries of a tar stream behind a gzip decoder:
/// `tar::Archive::entries` over `flate2::read::GzDecoder`, with
/// `Entry::path_bytes` for each name. The contract claims no more than that
/// the names are a function of the archive's bytes.
#[verifier::external_body]
fn tar_gz_names(archive: &[u8]) -> (r: Vec<EntryName>)
    ensures
        listing_view(r@) == tar_gz_listing(archive@),
{
    let mut tar = tar::Archive::new(flate2::read::GzDecoder::new(archive));
    let entries = match tar.entries() {
        Ok(entries) => entries,
        Err(_) => return vec![EntryName::Unreadable],
    };
    let mut names = Vec::new();
    for entry in entries {
        names.push(
            match entry {
                Ok(entry) => EntryName::Named(entry.path_bytes().into_owned()),
                Err(_) => EntryName::Unreadable,
            },
        );
    }
    names
}

/// Reads one entry of a tar stream behind a gzip decoder: the entry that
/// `tar::Archive::entries` yields at place `index`, its permission bits by
/// `Header::mode` and its content by `Read::read_to_end`. The contract
/// claims no more than that the result is a function of the archive's
/// bytes and the index.
#[verifier::external_body]
fn tar_gz_read(archive: &[u8], index: usize) -> (r: Option<Extracted>)
    ensures
        match r {
            Some(file) => tar_gz_content(archive@, index as int) == Some(file@),
            None => tar_gz_content(archive@, index as int) is None,
        },
{
    let mut tar = tar::Archive::new(flate2::read::GzDecoder::new(archive));
    let mut entry = tar.entries().ok()?.nth(index)?.ok()?;
    let mode = entry.header().mode().ok();
    let mut data = Vec::new();
    entry.read_to_end(&mut data).ok()?;
    Some(Extracted { data, mode })
}

/// Opens a zip file and walks its index: `zip::ZipArchive::new`, then
/// `by_index_decrypt` with an empty password for each place below `len`,
/// and `ZipFile::name` for each name. An entry that the crate does not
/// open counts as unreadable. That is every entry that is marked as
/// encrypted, but for one whose check byte happens to accept the empty
/// password. The contract claims no more than that the names are a
/// function of the archive's bytes.
#[verifier::external_body]
fn zip_names(archive: &[u8]) -> (r: Option<Vec<EntryName>>)
    ensures
        match r {
            Some(names) => zip_listing(archive@) == Some(listing_view(names@)),
            None => zip_listing(archive@) is None,
        },
{
    let mut zip = zip::ZipArchive::new(std::io::Cursor::new(archive)).ok()?;
    let mut names = Vec::new();
    for index in 0..zip.len() {
        names.push(
            match zip.by_index_decrypt(index, &[]) {
                Err(_) => EntryName::Unreadable,
                Ok(Err(_)) => EntryName::Unreadable,
                Ok(Ok(file)) => EntryName::Named(file.name().as_bytes().to_vec()),
            },
        );
    }
    Some(names)
}

/// Reads one entry of a zip file: `zip::ZipArchive::by_index_decrypt` with
/// an empty password, the entry's permission bits by `ZipFile::unix_mode`
/// and its content by `Read::read_to_end`. An entry that the crate does
/// not open yields nothing. The contract claims no more than that the
/// result is a function of the archive's bytes and the index.
#[verifier::external_body]
fn zip_read(archive: &[u8], index: usize) -> (r: Option<Extracted>)
    ensures
        match r {
            Some(file) => zip_content(archive@, index as int) == Some(file@),
            None => zip_content(archive@, index as int) is None,
        },
{
    let mut zip = zip::ZipArchive::new(std::io::Cursor::new(archive)).ok()?;
    let mut file = zip.by_index_decrypt(index, &[]).ok()?.ok()?;
    let mode = file.unix_mode();
    let mut data = Vec::new();
    file.read_to_end(&mut data).ok()?;
    Some(Extracted { data, mode })
}

/// The fault of an entry, if it has one: the entry cannot be read, or its
/// name is refused.
pub open spec fn fault_of(name: ListedName) -> Option<ArchiveFault> {
    match name {
        ListedName::Unreadable => Some(ArchiveFault::Entry),
        ListedName::Unsafe => Some(ArchiveFault::EntryPath),
        ListedName::Named(_) => None,
    }
}

/// Whether the search for `file` goes on past an entry: the entry has no
/// fault, and it is not taken for the file.
pub open spec fn passes(name: ListedName, file: Seq<u8>) -> bool {
    name matches ListedName::Named(path) && !names_file(path, file)
}

/// The place at which the search for `file` stops when it starts at
/// `from`: the first entry from there on that it does not pass, or the
/// length of the list where it passes them all.
pub open spec fn first_stop(names: Seq<ListedName>, file: Seq<u8>, from: int) -> int
    decreases names.len() - from,
{
    if from < 0 || from >= names.len() {
        names.len() as int
    } else if !passes(names[from], file) {
        from
    } else {
        first_stop(names, file, from + 1)
    }
}

/// How the search for `file` among `names` ends: with the place of the
/// first entry that is taken for the file, with nothing where no entry is,
/// or with the fault of an entry that stands before any such entry.
pub open spec fn find_outcome(names: Seq<ListedName>, file: Seq<u8>) -> Result<
    Option<int>,
    ArchiveFault,
> {
    let stop = first_stop(names, file, 0);
    if stop >= names.len() {
        Ok(None)
    } else {
        match fault_of(names[stop]) {
            Some(fault) => Err(fault),
            None => Ok(Some(stop)),
        }
    }
}

/// The end of a search with the place as a number without bound.
pub open spec fn place_view(found: Result<Option<usize>, ArchiveFault>) -> Result<
    Option<int>,
    ArchiveFault,
> {
    match found {
        Ok(Some(index)) => Ok(Some(index as int)),
        Ok(None) => Ok(None),
        Err(fault) => Err(fault),
    }
}

/// The search stops at the first entry that it does not pass.
pub proof fn lemma_first_stop(names: Seq<ListedName>, file: Seq<u8>, from: int)
    requires
        0 <= from <= names.len(),
    ensures
        from <= first_stop(names, file, from) <= names.len(),
        forall|j: int| from <= j < first_stop(names, file, from) ==> passes(names[j], file),
        first_stop(names, file, from) < names.len() ==> !passes(
            names[first_stop(names, file, from)],
            file,
        ),
    decreases names.len() - from,
{
    if from < names.len() && passes(names[from], file) {
        lemma_first_stop(names, file, from + 1);
    }
}

/// Searches `names` for the entry that is taken for the file at path
/// `file`. An entry with a fault ends the search.
pub fn find_entry(names: &Vec<EntryName>, file: &[u8]) -> (r: Result<Option<usize>, ArchiveFault>)
    ensures
        place_view(r) == find_outcome(listing_view(names@), file@),
{
    let wanted = component_bounds(file);
    let ghost listed = listing_view(names@);
    let mut index: usize = 0;
    while index < names.len()
        invariant
            index <= names.len(),
            listed == listing_view(names@),
            within(wanted@, file@.len()),
            stretches(file@, wanted@) == components(file@),
            first_stop(listed, file@, 0) == first_stop(listed, file@, index as int),
        decreases names.len() - index,
    {
        assert(listed[index as int] == names@[index as int]@);
        match &names[index] {
            EntryName::Unreadable => {
                return Err(ArchiveFault::Entry);
            },
            EntryName::Unsafe => {
                return Err(ArchiveFault::EntryPath);
            },
            EntryName::Named(path) => {
                if entry_names_file(path.as_slice(), file, &wanted) {
                    return Ok(Some(index));
                }
            },
        }
        index += 1;
    }
    Ok(None)
}

/// The place of the entry to read for the file at path `file`, or why
/// there is none: the fault at which the search ended, or that no entry is
/// taken for the file.
pub open spec fn locate_outcome(names: Seq<ListedName>, file: Seq<char>) -> Result<
    int,
    ToolErrorView,
> {
    match find_outcome(names, encode_utf8(file)) {
        Err(fault) => Err(ToolErrorView::IoFailure { fault }),
        Ok(None) => Err(ToolErrorView::ArchiveEntryNotFound { path: file }),
        Ok(Some(index)) => Ok(index),
    }
}

/// The end of a search for the entry to read, as contracts speak of it.
pub open spec fn located_view(found: Result<usize, ToolError>) -> Result<int, ToolErrorView> {
    match found {
        Ok(index) => Ok(index as int),
        Err(e) => Err(e@),
    }
}

/// Finds among `names` the place of the entry to read for the file at
/// path `file`.
pub fn locate_entry(names: &Vec<EntryName>, file: &str) -> (r: Result<usize, ToolError>)
    ensures
        located_view(r) == locate_outcome(listing_view(names@), file@),
{
    match find_entry(names, file.as_bytes()) {
        Err(fault) => Err(ToolError::IoFailure { fault }),
        Ok(None) => Err(ToolError::ArchiveEntryNotFound { path: String::from_str(file) }),
        Ok(Some(index)) => Ok(index),
    }
}

/// What was read of an entry, or the fault `Content` where nothing could
/// be read.
pub fn content_or_fault(read: Option<Extracted>) -> (r: Result<Extracted, ToolError>)
    ensures
        match read {
            Some(found) => r == Ok::<Extracted, ToolError>(found),
            None => extraction_view(r) == extraction_view(
                Err(ToolError::IoFailure { fault: ArchiveFault::Content }),
            ),
        },
{
    match read {
        Some(found) => Ok(found),
        None => Err(ToolError::IoFailure { fault: ArchiveFault::Content }),
    }
}

/// An entry's name once names that lead out of the directory of unpacking
/// are refused.
pub open spec fn refused(name: ListedName) -> ListedName {
    match name {
        ListedName::Named(path) if !stays_inside(path) => ListedName::Unsafe,
        other => other,
    }
}

/// A list of names once names that lead out of the directory of unpacking
/// are refused.
pub open spec fn refuse_all(names: Seq<ListedName>) -> Seq<ListedName> {
    Seq::new(names.len(), |i: int| refused(names[i]))
}

/// Marks as `Unsafe` every name in the list that leads out of the
/// directory of unpacking, and leaves the others as they are.
pub fn refuse_unsafe(names: Vec<EntryName>) -> (r: Vec<EntryName>)
    ensures
        listing_view(r@) == refuse_all(listing_view(names@)),
{
    let ghost given = names@;
    let mut names = names;
    let mut i: usize = 0;
    while i < names.len()
        invariant
            i <= names.len(),
            names@.len() == given.len(),
            forall|j: int| 0 <= j < i ==> (#[trigger] names@[j])@ == refused(given[j]@),
            forall|j: int| i <= j < names@.len() ==> #[trigger] names@[j] == given[j],
        decreases names.len() - i,
    {
        let leaves = match &names[i] {
            EntryName::Named(path) => !path_stays_inside(path.as_slice()),
            _ => false,
        };
        if leaves {
            names.set(i, EntryName::Unsafe);
        }
        i += 1;
    }
    assert(listing_view(names@) =~= refuse_all(listing_view(given)));
    names
}

/// The names of the entries of an archive with the given bytes, as the
/// search goes through them; `None` where the archive cannot be opened.
/// In a zip file, names that lead out of the directory of unpacking are
/// refused.
pub open spec fn listing_of(sequential: bool, bytes: Seq<u8>) -> Option<Seq<ListedName>> {
    if sequential {
        Some(tar_gz_listing(bytes))
    } else {
        match zip_listing(bytes) {
            Some(names) => Some(refuse_all(names)),
            None => None,
        }
    }
}

/// Content and permission bits of the entry at place `index` of an archive
/// with the given bytes.
pub open spec fn content_of(sequential: bool, bytes: Seq<u8>, index: int) -> Option<
    (Seq<u8>, Option<u32>),
> {
    if sequential {
        tar_gz_content(bytes, index)
    } else {
        zip_content(bytes, index)
    }
}

/// What reading an archive from its start yields for the file at path
/// `file`. The entries are searched in order for the first one whose
/// path, without its first component, is `file`, and that entry's content
/// is read. An entry with a fault on the way ends the search: one that
/// cannot be read, or, in a zip file, one whose name is refused.
pub open spec fn read_outcome(sequential: bool, bytes: Seq<u8>, file: Seq<char>) -> Result<
    (Seq<u8>, Option<u32>),
    ToolErrorView,
> {
    match listing_of(sequential, bytes) {
        None => Err(ToolErrorView::IoFailure { fault: ArchiveFault::Open }),
        Some(names) => match locate_outcome(names, file) {
            Err(e) => Err(e),
            Ok(index) => match content_of(sequential, bytes, index) {
                None => Err(ToolErrorView::IoFailure { fault: ArchiveFault::Content }),
                Some(found) => Ok(found),
            },
        },
    }
}

/// The result of an extraction as contracts speak of it.
pub open spec fn extraction_view(done: Result<Extracted, ToolError>) -> Result<
    (Seq<u8>, Option<u32>),
    ToolErrorView,
> {
    match done {
        Ok(found) => Ok(found@),
        Err(e) => Err(e@),
    }
}

/// A release archive.
#[derive(Clone, Debug, PartialEq, Eq)]
pub enum Archive {
    /// A tar stream compressed with gzip. It is read from front to back:
    /// once a file has been looked for, the archive is `spent` and must be
    /// reset before it is read again.
    TarGz { bytes: Vec<u8>, spent: bool },
    /// A zip file. Its index gives access to any entry at any time.
    Zip { bytes: Vec<u8> },
}

impl Archive {
    /// The bytes of the archive file.
    pub open spec fn spec_bytes(self) -> Seq<u8> {
        match self {
            Archive::TarGz { bytes, .. } => bytes@,
            Archive::Zip { bytes } => bytes@,
        }
    }

    /// Whether the archive is read from front to back.
    pub open spec fn sequential(self) -> bool {
        self is TarGz
    }

    /// Whether the archive must be reset before it is read again.
    pub open spec fn spent(self) -> bool {
        self matches Archive::TarGz { spent, .. } && spent
    }

    /// The archive once a file has been looked for in it.
    pub open spec fn spec_read(self) -> Archive {
        match self {
            Archive::TarGz { bytes, .. } => Archive::TarGz { bytes, spent: true },
            Archive::Zip { bytes } => Archive::Zip { bytes },
        }
    }

    /// The archive once it has been reset.
    pub open spec fn spec_reset(self) -> Archive {
        match self {
            Archive::TarGz { bytes, .. } => Archive::TarGz { bytes, spent: false },
            Archive::Zip { bytes } => Archive::Zip { bytes },
        }
    }

    /// What extracting the file at path `file` yields in the archive's
    /// present state: nothing from a spent archive, else what reading the
    /// archive from its start yields.
    pub open spec fn outcome(self, file: Seq<char>) -> Result<
        (Seq<u8>, Option<u32>),
        ToolErrorView,
    > {
        if self.spent() {
            Err(ToolErrorView::IoFailure { fault: ArchiveFault::NotReset })
        } else {
            read_outcome(self.sequential(), self.spec_bytes(), file)
        }
    }

    /// An archive over the bytes of a gzip-compressed tar stream, ready to
    /// be read.
    pub fn new_tar_gz(bytes: Vec<u8>) -> (r: Archive)
        ensures
            r == (Archive::TarGz { bytes, spent: false }),
    {
        Archive::TarGz { bytes, spent: false }
    }

    /// An archive over the bytes of a zip file, or the fault `Open` where
    /// the bytes are no zip file.
    pub fn new_zip(bytes: Vec<u8>) -> (r: Result<Archive, ToolError>)
        ensures
            match r {
                Ok(archive) => zip_listing(bytes@) is Some && archive == (Archive::Zip { bytes }),
                Err(e) => zip_listing(bytes@) is None && e@ == (ToolErrorView::IoFailure {
                    fault: ArchiveFault::Open,
                }),
            },
    {
        match zip_names(bytes.as_slice()) {
            Some(_) => Ok(Archive::Zip { bytes }),
            None => Err(ToolError::IoFailure { fault: ArchiveFault::Open }),
        }
    }

    /// Takes the file at path `file` out of the archive. The entry that
    /// holds it is the first one whose path, without its first component,
    /// is `file`. A sequential archive is spent afterwards, whatever the
    /// result; any other archive is left as it was.
    pub fn extract_file(&mut self, file: &str) -> (r: Result<Extracted, ToolError>)
        ensures
            *final(self) == old(self).spec_read(),
            extraction_view(r) == old(self).outcome(file@),
    {
        match self {
            Archive::TarGz { bytes, spent } => {
                if *spent {
                    return Err(ToolError::IoFailure { fault: ArchiveFault::NotReset });
                }
                *spent = true;
                let names = tar_gz_names(bytes.as_slice());
                match locate_entry(&names, file) {
                    Err(e) => Err(e),
                    Ok(index) => content_or_fault(tar_gz_read(bytes.as_slice(), index)),
                }
            },
            Archive::Zip { bytes } => match zip_names(bytes.as_slice()) {
                None => Err(ToolError::IoFailure { fault: ArchiveFault::Open }),
                Some(names) => match locate_entry(&refuse_unsafe(names), file) {
                    Err(e) => Err(e),
                    Ok(index) => content_or_fault(zip_read(bytes.as_slice(), index)),
                },
            },
        }
    }

    /// Makes the archive ready to be read again from its start. For an
    /// archive that is not sequential this changes nothing.
    pub fn reset(self) -> (r: Result<Archive, ToolError>)
        ensures
            r == Ok::<Archive, ToolError>(self.spec_reset()),
    {
        match self {
            Archive::TarGz { bytes, .. } => Ok(Archive::TarGz { bytes, spent: false }),
            Archive::Zip { bytes } => Ok(Archive::Zip { bytes }),
        }
    }
}

/// A sequential archive must be reset between two extractions, and any
/// archive can be read again once it is reset; an archive that is not
/// sequential needs no reset. After a file has been looked for in a
/// sequential archive, looking for `file` yields the fault `NotReset`,
/// while after a reset it yields what it yields from a fresh archive. In
/// an archive that is not sequential, looking for `file` yields the same
/// before and after another file has been looked for.
pub proof fn lemma_reset_between_extractions(archive: Archive, file: Seq<char>)
    ensures
        archive.sequential() ==> archive.spec_read().outcome(file) == extraction_view(
            Err(ToolError::IoFailure { fault: ArchiveFault::NotReset }),
        ),
        archive.spec_read().spec_reset().outcome(file) == read_outcome(
            archive.sequential(),
            archive.spec_bytes(),
            file,
        ),
        !archive.sequential() ==> archive.spec_read().outcome(file) == archive.outcome(file),
        !archive.sequential() ==> archive.outcome(file) == read_outcome(
            false,
            archive.spec_bytes(),
            file,
        ),
{
}

} // verus!
