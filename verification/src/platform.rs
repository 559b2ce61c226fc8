//! The host a tool is resolved for.

use vstd::prelude::*;

verus! {

/// Operating system family of the host.
#[derive(Clone, Copy, Debug, PartialEq, Eq, Structural, Hash)]
pub enum Os {
    Windows,
    MacOs,
    Linux,
    /// Any system for which no release is published.
    Other,
}

/// Processor architecture of the host.
#[derive(Clone, Copy, Debug, PartialEq, Eq, Structural, Hash)]
pub enum Arch {
    X86_64,
    Aarch64,
    /// Any architecture for which no release is published.
    Other,
}

impl Os {
    /// The name of the system as release file names spell it. `Other` has none.
    pub open spec fn spec_label(self) -> Seq<char> {
        match self {
            Os::Windows => "windows"@,
            Os::MacOs => "macos"@,
            Os::Linux => "linux"@,
            Os::Other => Seq::empty(),
        }
    }

    /// Whether releases are published for this system at all.
    pub open spec fn spec_supported(self) -> bool {
        self != Os::Other
    }

    #[verifier::when_used_as_spec(spec_supported)]
    pub fn supported(self) -> (r: bool)
        ensures
            r == self.spec_supported(),
    {
        match self {
            Os::Other => false,
            _ => true,
        }
    }
}

impl Arch {
    /// The name of the architecture as release file names spell it. `Other` has none.
    pub open spec fn spec_label(self) -> Seq<char> {
        match self {
            Arch::X86_64 => "x86_64"@,
            Arch::Aarch64 => "aarch64"@,
            Arch::Other => Seq::empty(),
        }
    }

    /// Whether releases are published for this architecture at all.
    pub open spec fn spec_supported(self) -> bool {
        self != Arch::Other
    }

    #[verifier::when_used_as_spec(spec_supported)]
    pub fn supported(self) -> (r: bool)
        ensures
            r == self.spec_supported(),
    {
        match self {
            Arch::Other => false,
            _ => true,
        }
    }
}

} // verus!
