//! Names of what an installation leaves in the cache directory.
//!
//! Each tool in each version has a directory of its own, named after both,
//! and while its release is downloaded the archive lies beside that
//! directory under the same name with `.tmp` behind it.

use vstd::prelude::*;
use vstd::string::*;
use crate::application::Application;

verus! {

/// Name of the directory that holds `app` in `version`.
pub open spec fn spec_install_dir_name(app: Application, version: Seq<char>) -> Seq<char> {
    app.spec_name() + "-"@ + version
}

/// Name of the file that holds the release archive of `app` in `version`
/// while it is downloaded and unpacked.
pub open spec fn spec_temp_archive_name(app: Application, version: Seq<char>) -> Seq<char> {
    spec_install_dir_name(app, version) + ".tmp"@
}

/// Name of the directory that holds `app` in `version`.
pub fn install_dir_name(app: Application, version: &str) -> (r: String)
    ensures
        r@ == spec_install_dir_name(app, version@),
{
    let mut name = String::from_str(app.name());
    name.append("-");
    name.append(version);
    name
}

/// Name of the file that holds the release archive of `app` in `version`
/// while it is downloaded and unpacked.
pub fn temp_archive_name(app: Application, version: &str) -> (r: String)
    ensures
        r@ == spec_temp_archive_name(app, version@),
{
    let mut name = install_dir_name(app, version);
    name.append(".tmp");
    name
}

/// Installations that differ in tool or version never share a directory.
pub proof fn lemma_install_dirs_differ(
    app: Application,
    version: Seq<char>,
    other_app: Application,
    other_version: Seq<char>,
)
    requires
        spec_install_dir_name(app, version) == spec_install_dir_name(other_app, other_version),
    ensures
        app == other_app,
        version == other_version,
{
    reveal_strlit("sass");
    reveal_strlit("wasm-bindgen");
    reveal_strlit("wasm-opt");
    reveal_strlit("-");
    let a = spec_install_dir_name(app, version);
    let b = spec_install_dir_name(other_app, other_version);
    assert(a[0] == b[0]);
    assert(a[5] == b[5]);
    assert(app == other_app);
    let n = (app.spec_name() + "-"@).len() as int;
    assert(a.len() == b.len());
    assert forall|i: int| 0 <= i < version.len() implies version[i] == other_version[i] by {
        assert(a[n + i] == b[n + i]);
    }
    assert(version =~= other_version);
}

/// Downloads that differ in tool or version never share an archive file.
pub proof fn lemma_temp_archives_differ(
    app: Application,
    version: Seq<char>,
    other_app: Application,
    other_version: Seq<char>,
)
    requires
        spec_temp_archive_name(app, version) == spec_temp_archive_name(other_app, other_version),
    ensures
        app == other_app,
        version == other_version,
{
    reveal_strlit(".tmp");
    let a = spec_install_dir_name(app, version);
    let b = spec_install_dir_name(other_app, other_version);
    assert((a + ".tmp"@).len() == (b + ".tmp"@).len());
    assert forall|i: int| 0 <= i < a.len() implies a[i] == b[i] by {
        assert((a + ".tmp"@)[i] == (b + ".tmp"@)[i]);
    }
    assert(a =~= b);
    lemma_install_dirs_differ(app, version, other_app, other_version);
}

} // verus!
