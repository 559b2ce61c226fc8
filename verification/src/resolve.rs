//! From a request for a tool to the executable that serves it.
//!
//! A request is served by a binary of the host where one fits. Otherwise
//! it is served from the cache directory, where the tool is installed
//! first unless an executable is already in its place.

use vstd::prelude::*;
use vstd::string::*;
use crate::application::Application;
use crate::layout::{install_dir_name, spec_install_dir_name};
use crate::platform::Os;
use crate::probe::{find_system, spec_find_system, text_view, Probe};

verus! {

/// Where a tool lies in the cache directory.
#[derive(Clone, Debug, PartialEq, Eq)]
pub struct Target {
    /// The version of the tool.
    pub version: String,
    /// Name of the tool's directory, below the cache directory.
    pub directory: String,
    /// Path of the executable, below the tool's directory.
    pub binary: &'static str,
}

/// What is to be done for a request.
#[derive(Clone, Debug, PartialEq, Eq)]
pub enum Step<P> {
    /// Use the binary of the host at `path`, which states `version`.
    UseSystem { path: P, version: String },
    /// Find out whether the target's executable exists and can be run,
    /// and ask again with the answer.
    CheckExecutable(Target),
    /// Install the tool, then use the target's executable.
    Install(Target),
    /// Use the target's executable, which is in place.
    UseCached(Target),
}

/// The version that serves the request: the wanted one, or the tool's
/// default where the request names none.
pub open spec fn effective_version(app: Application, version: Option<Seq<char>>) -> Seq<char> {
    match version {
        Some(version) => version,
        None => app.spec_default_version(),
    }
}

/// Whether `target` is where `app` lies for a request for `version` on `os`.
pub open spec fn is_target(
    target: Target,
    app: Application,
    version: Option<Seq<char>>,
    os: Os,
) -> bool {
    &&& target.version@ == effective_version(app, version)
    &&& target.directory@ == spec_install_dir_name(app, effective_version(app, version))
    &&& target.binary@ == app.spec_path(os)
}

/// Whether `step` is what is to be done for a request for `app` in
/// `version` on `os`, given what the host found on its search path and
/// what is known of the executable in the cache. A binary of the host that
/// fits is used before anything else, and the cache is not looked at.
/// Without one, the executable in the cache is used if it is known to be in
/// place, the tool is installed if the executable is known to be missing,
/// and the host is asked to look where nothing is known.
pub open spec fn is_step<P>(
    step: Step<P>,
    app: Application,
    version: Option<Seq<char>>,
    os: Os,
    probe: Option<Probe<P>>,
    executable: Option<bool>,
) -> bool {
    match spec_find_system(app, version, probe) {
        Some((path, found)) => step matches Step::UseSystem { path: p, version: v } && p == path
            && v@ == found,
        None => match executable {
            None => step matches Step::CheckExecutable(target) && is_target(
                target,
                app,
                version,
                os,
            ),
            Some(false) => step matches Step::Install(target) && is_target(
                target,
                app,
                version,
                os,
            ),
            Some(true) => step matches Step::UseCached(target) && is_target(
                target,
                app,
                version,
                os,
            ),
        },
    }
}

/// Says what is to be done for a request for `app` in `version` on `os`.
/// `probe` is what the host found when it looked for the tool on its
/// search path. `executable` is what is known of the executable in the
/// cache: nothing at first, and the host's answer once `CheckExecutable`
/// has sent it to look.
pub fn get<P>(
    app: Application,
    version: Option<&str>,
    os: Os,
    probe: Option<Probe<P>>,
    executable: Option<bool>,
) -> (r: Step<P>)
    ensures
        is_step(r, app, text_view(version), os, probe, executable),
{
    if let Some((path, found)) = find_system(app, version, probe) {
        return Step::UseSystem { path, version: found };
    }
    let version = match version {
        Some(version) => version,
        None => app.default_version(),
    };
    let target = Target {
        version: String::from_str(version),
        directory: install_dir_name(app, version),
        binary: app.path(os),
    };
    match executable {
        None => Step::CheckExecutable(target),
        Some(false) => Step::Install(target),
        Some(true) => Step::UseCached(target),
    }
}

/// Two requests for the same tool and version on the same host lead to the
/// same place in the cache, whatever is known of the executable there.
pub proof fn lemma_same_request_same_target(
    first: Target,
    second: Target,
    app: Application,
    version: Option<Seq<char>>,
    os: Os,
)
    requires
        is_target(first, app, version, os),
        is_target(second, app, version, os),
    ensures
        first.version@ == second.version@,
        first.directory@ == second.directory@,
        first.binary@ == second.binary@,
{
}

/// A binary of the host that fits is used whatever the cache holds.
pub proof fn lemma_system_binary_comes_first<P>(
    step: Step<P>,
    app: Application,
    version: Option<Seq<char>>,
    os: Os,
    probe: Option<Probe<P>>,
    executable: Option<bool>,
)
    requires
        is_step(step, app, version, os, probe, executable),
    ensures
        spec_find_system(app, version, probe) is Some <==> step is UseSystem,
        forall|other: Option<bool>|
            spec_find_system(app, version, probe) is Some ==> is_step(
                step,
                app,
                version,
                os,
                probe,
                other,
            ),
{
}

} // verus!
