//! Resolution of external build tools.
//!
//! For a requested tool and an optional version this crate decides which
//! executable a build should use: a matching binary that the host already
//! has, or a release that is fetched into a cache directory, unpacked there
//! and reused afterwards. The crate holds the rules only. Reading the
//! search path, talking to the network and writing files is left to the
//! embedding program, which hands the observed values in and carries the
//! returned plans out.

pub mod application;
pub mod archive;
pub mod cache;
pub mod download;
pub mod entry_path;
pub mod error;
pub mod install;
pub mod layout;
pub mod platform;
pub mod probe;
pub mod resolve;
pub mod text;

pub use application::Application;
pub use archive::{Archive, EntryName, Extracted};
pub use cache::{Admission, AppCache, Slot};
pub use error::{ArchiveFault, ToolError, ToolErrorView};
pub use install::{install, Installation, InstalledFile};
pub use platform::{Arch, Os};
pub use probe::{find_system, Probe};
pub use resolve::{get, Step, Target};
