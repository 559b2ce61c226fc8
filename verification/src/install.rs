//! Unpacking a downloaded release.

use vstd::prelude::*;
use vstd::string::*;
use crate::application::{str_views, Application};
use crate::archive::{extraction_view, read_outcome, Archive, Extracted};
use crate::error::ToolError;
use crate::platform::Os;

verus! {

/// A file of a release, as it is to be written below the directory of the
/// installation.
#[derive(Clone, Debug, PartialEq, Eq)]
pub struct InstalledFile {
    /// Where the file goes, relative to the directory of the installation.
    pub path: String,
    /// The content of the file.
    pub data: Vec<u8>,
    /// The Unix permission bits to give the file, if the archive records any.
    pub mode: Option<u32>,
}

/// How far the unpacking of a release got.
#[derive(Clone, Debug, PartialEq, Eq)]
pub struct Installation {
    /// The files that were taken out of the archive, in the order in which
    /// they are to be written.
    pub files: Vec<InstalledFile>,
    /// Why the file after those could not be taken out; `None` where the
    /// release is complete.
    pub error: Option<ToolError>,
}

/// Whether the release of `app` for `os` is a zip file. Every other
/// release is a tar stream compressed with gzip.
pub open spec fn spec_uses_zip(app: Application, os: Os) -> bool {
    app == Application::Sass && os == Os::Windows
}

/// The files that make up an installation of `app` on `os`: the executable
/// first, then what it needs beside it.
pub open spec fn wanted_files(app: Application, os: Os) -> Seq<Seq<char>> {
    seq![app.spec_path(os)] + app.spec_extra_paths(os)
}

/// The place of the first of `files` from `from` on that cannot be taken
/// out of the release with the given bytes; the number of files where all
/// of them can.
pub open spec fn first_failure(sequential: bool, bytes: Seq<u8>, files: Seq<Seq<char>>, from: int) -> int
    decreases files.len() - from,
{
    if from < 0 || from >= files.len() {
        files.len() as int
    } else if read_outcome(sequential, bytes, files[from]) is Err {
        from
    } else {
        first_failure(sequential, bytes, files, from + 1)
    }
}

/// Whether `file` is the file at `path` as the release with the given
/// bytes holds it.
pub open spec fn is_unpacked(file: InstalledFile, sequential: bool, bytes: Seq<u8>, path: Seq<char>) -> bool {
    file.path@ == path && read_outcome(sequential, bytes, path) == extraction_view(
        Ok(Extracted { data: file.data, mode: file.mode }),
    )
}

/// Whether `done` is what unpacking `files` from the release with the
/// given bytes comes to: the files up to the first that cannot be taken
/// out, each as the release holds it, and the failure of that one.
pub open spec fn is_installation(
    done: Installation,
    sequential: bool,
    bytes: Seq<u8>,
    files: Seq<Seq<char>>,
) -> bool {
    let stop = first_failure(sequential, bytes, files, 0);
    &&& done.files@.len() == stop
    &&& forall|i: int|
        0 <= i < stop ==> is_unpacked(#[trigger] done.files@[i], sequential, bytes, files[i])
    &&& if stop < files.len() {
        done.error matches Some(e) && read_outcome(sequential, bytes, files[stop])
            == extraction_view(Err(e))
    } else {
        done.error is None
    }
}

/// Every file before the first failure can be taken out, and the file at
/// the first failure cannot.
pub proof fn lemma_first_failure(sequential: bool, bytes: Seq<u8>, files: Seq<Seq<char>>, from: int)
    requires
        0 <= from <= files.len(),
    ensures
        from <= first_failure(sequential, bytes, files, from) <= files.len(),
        forall|i: int|
            from <= i < first_failure(sequential, bytes, files, from) ==> read_outcome(
                sequential,
                bytes,
                #[trigger] files[i],
            ) is Ok,
        first_failure(sequential, bytes, files, from) < files.len() ==> read_outcome(
            sequential,
            bytes,
            files[first_failure(sequential, bytes, files, from)],
        ) is Err,
    decreases files.len() - from,
{
    if from < files.len() && read_outcome(sequential, bytes, files[from]) is Ok {
        lemma_first_failure(sequential, bytes, files, from + 1);
    }
}

/// Whether the release of `app` for `os` is a zip file.
pub fn uses_zip(app: Application, os: Os) -> (r: bool)
    ensures
        r == spec_uses_zip(app, os),
{
    match (app, os) {
        (Application::Sass, Os::Windows) => true,
        _ => false,
    }
}

/// Unpacks the release of `app` for `os` from the bytes of its archive:
/// the executable first, then each file that it needs beside it, with the
/// archive reset before each of those. Unpacking stops at the first file
/// that cannot be taken out; the files before it are still handed back.
pub fn install(app: Application, archive: Vec<u8>, os: Os) -> (r: Installation)
    ensures
        is_installation(r, !spec_uses_zip(app, os), archive@, wanted_files(app, os)),
{
    let zip = uses_zip(app, os);
    let ghost bytes = archive@;
    let ghost wanted = wanted_files(app, os);
    let mut files: Vec<InstalledFile> = Vec::new();
    let mut opened = if zip {
        match Archive::new_zip(archive) {
            Ok(opened) => opened,
            Err(e) => {
                return Installation { files, error: Some(e) };
            },
        }
    } else {
        Archive::new_tar_gz(archive)
    };
    let main = app.path(os);
    match opened.extract_file(main) {
        Ok(found) => {
            files.push(InstalledFile { path: String::from_str(main), data: found.data, mode: found.mode });
        },
        Err(e) => {
            return Installation { files, error: Some(e) };
        },
    }
    let extras = app.extra_paths(os);
    assert(wanted.len() == extras.len() + 1);
    let mut k: usize = 0;
    while k < extras.len()
        invariant
            k <= extras.len(),
            zip == spec_uses_zip(app, os),
            bytes == archive@,
            wanted == wanted_files(app, os),
            wanted.len() == extras.len() + 1,
            str_views(extras@) == app.spec_extra_paths(os),
            opened.spec_bytes() == bytes,
            opened.sequential() == !zip,
            files@.len() == k + 1,
            first_failure(!zip, bytes, wanted, 0) == first_failure(!zip, bytes, wanted, k + 1),
            forall|i: int| 0 <= i <= k ==> is_unpacked(#[trigger] files@[i], !zip, bytes, wanted[i]),
        decreases extras.len() - k,
    {
        let path = extras[k];
        proof {
            assert(wanted[k + 1] == str_views(extras@)[k as int]);
            assert(wanted[k + 1] == path@);
        }
        opened = match opened.reset() {
            Ok(fresh) => fresh,
            Err(e) => {
                return Installation { files, error: Some(e) };
            },
        };
        match opened.extract_file(path) {
            Ok(found) => {
                files.push(
                    InstalledFile { path: String::from_str(path), data: found.data, mode: found.mode },
                );
            },
            Err(e) => {
                return Installation { files, error: Some(e) };
            },
        }
        k += 1;
    }
    Installation { files, error: None }
}

} // verus!
