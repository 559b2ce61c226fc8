//! Whether a tool that the host has installed can serve a request.

use vstd::prelude::*;
use vstd::string::*;
use vstd::utf8::{decode_utf8, encode_utf8_decode_utf8, encode_utf8_valid_utf8, valid_utf8};
use crate::application::Application;

verus! {

/// What became of asking a binary on the search path for its version. The
/// path is carried through as it is; `P` is whatever the host names files by.
#[derive(Clone, Debug, PartialEq, Eq)]
pub struct Probe<P> {
    /// Where the binary was found.
    pub path: P,
    /// Whether the binary ended with success.
    pub success: bool,
    /// The bytes that the binary wrote to its standard output.
    pub output: Vec<u8>,
}

/// The view of an optional string.
pub open spec fn text_view(text: Option<&str>) -> Option<Seq<char>> {
    match text {
        Some(text) => Some(text@),
        None => None,
    }
}

/// The version that `app` states with the bytes `output`: none where the
/// bytes are no text in UTF-8, else what the text states.
pub open spec fn stated_version(app: Application, output: Seq<u8>) -> Option<Seq<char>> {
    if valid_utf8(output) {
        app.spec_format_version_output(decode_utf8(output))
    } else {
        None
    }
}

/// The binary that serves a request for `app` in `version`, with the
/// version it states, where the host has one. A binary serves the request
/// if it answered the version query with success, its answer is text that
/// states a version, and that version is the wanted one, character for
/// character; a request without a version is served by any version.
pub open spec fn spec_find_system<P>(
    app: Application,
    version: Option<Seq<char>>,
    probe: Option<Probe<P>>,
) -> Option<(P, Seq<char>)> {
    match probe {
        Some(probe) if probe.success => match stated_version(app, probe.output@) {
            Some(found) if version is None || version == Some(found) => Some((probe.path, found)),
            _ => None,
        },
        _ => None,
    }
}

/// Reads bytes as text: `std::str::from_utf8`. As its documentation says,
/// the call succeeds exactly on bytes that are valid UTF-8, and the text
/// it hands back consists of those very bytes.
#[verifier::external_body]
fn text_of(bytes: &[u8]) -> (r: Option<&str>)
    ensures
        match r {
            Some(text) => text.spec_bytes() == bytes@,
            None => !valid_utf8(bytes@),
        },
{
    std::str::from_utf8(bytes).ok()
}

/// Decides whether the binary that the host found for `app`, if any,
/// serves a request for `version`, and hands back its path and version if
/// it does. A probe that failed in any way is no error: it only means that
/// the host has nothing to offer.
pub fn find_system<P>(app: Application, version: Option<&str>, probe: Option<Probe<P>>) -> (r:
    Option<(P, String)>)
    ensures
        match r {
            Some((path, found)) => spec_find_system(app, text_view(version), probe) == Some(
                (path, found@),
            ),
            None => spec_find_system(app, text_view(version), probe) is None,
        },
{
    let probe = match probe {
        Some(probe) => probe,
        None => {
            return None;
        },
    };
    if !probe.success {
        return None;
    }
    let text = match text_of(probe.output.as_slice()) {
        Some(text) => text,
        None => {
            return None;
        },
    };
    proof {
        encode_utf8_decode_utf8(text@);
        encode_utf8_valid_utf8(text@);
    }
    let found = match app.format_version_output(text) {
        Ok(found) => found,
        Err(_) => {
            return None;
        },
    };
    let wanted = match version {
        Some(version) => {
            let wanted = String::from_str(version);
            found == wanted
        },
        None => true,
    };
    if wanted {
        Some((probe.path, found))
    } else {
        None
    }
}

/// A binary of the host serves a request only if the request names no
/// version or names exactly the version that the binary states, and it
/// serves every such request once its answer to the version query can be
/// read. Without a binary nothing serves the request, and neither does a
/// binary whose answer is no text.
pub proof fn lemma_system_version_matches<P>(
    app: Application,
    version: Option<Seq<char>>,
    probe: Probe<P>,
)
    ensures
        spec_find_system(app, version, Some(probe)) is Some <==> {
            &&& probe.success
            &&& stated_version(app, probe.output@) matches Some(found)
            &&& version is None || version == Some(found)
        },
        spec_find_system(app, version, Some(probe)) matches Some((path, found)) ==> path
            == probe.path && stated_version(app, probe.output@) == Some(found),
        spec_find_system(app, version, None::<Probe<P>>) is None,
        !valid_utf8(probe.output@) ==> spec_find_system(app, version, Some(probe)) is None,
{
}

} // verus!
