//! The supported tools and what is known about each of them.

use vstd::prelude::*;
use vstd::string::*;
use crate::error::{ToolError, ToolErrorView};
use crate::platform::{Arch, Os};
use crate::text::{
    chars_of, lemma_split_nonempty, nth, piece_bounds, split, trim, trim_bounds, trim_stretch,
};

verus! {

/// A tool that a build may need.
#[derive(Clone, Copy, Debug, PartialEq, Eq, Structural, Hash)]
pub enum Application {
    /// The Sass compiler.
    Sass,
    /// The generator of JavaScript bindings for WebAssembly modules.
    WasmBindgen,
    /// The WebAssembly optimizer.
    WasmOpt,
}

/// The views of a list of string slices.
pub open spec fn str_views(v: Seq<&'static str>) -> Seq<Seq<char>> {
    Seq::new(v.len(), |i: int| v[i]@)
}

/// The first line of a text, without the white space at the line's ends:
/// what stands before the first line feed, trimmed. A carriage return
/// before the line feed is white space and goes with it. Empty text has
/// no line.
pub open spec fn first_line(t: Seq<char>) -> Option<Seq<char>> {
    if t.len() == 0 {
        None
    } else {
        Some(trim(split(t, '\n')[0]))
    }
}

impl Application {
    /// Base name of the executable, without extension.
    pub open spec fn spec_name(self) -> Seq<char> {
        match self {
            Application::Sass => "sass"@,
            Application::WasmBindgen => "wasm-bindgen"@,
            Application::WasmOpt => "wasm-opt"@,
        }
    }

    /// Path of the executable within the release archive, below the
    /// archive's top directory.
    pub open spec fn spec_path(self, os: Os) -> Seq<char> {
        match (os, self) {
            (Os::Windows, Application::Sass) => "sass.bat"@,
            (Os::Windows, Application::WasmBindgen) => "wasm-bindgen.exe"@,
            (Os::Windows, Application::WasmOpt) => "bin/wasm-opt.exe"@,
            (_, Application::Sass) => "sass"@,
            (_, Application::WasmBindgen) => "wasm-bindgen"@,
            (_, Application::WasmOpt) => "bin/wasm-opt"@,
        }
    }

    /// Paths of the files that the executable needs beside it, in the order
    /// in which they are unpacked.
    pub open spec fn spec_extra_paths(self, os: Os) -> Seq<Seq<char>> {
        match (self, os) {
            (Application::Sass, Os::Windows) => seq!["src/dart.exe"@, "src/sass.snapshot"@],
            (Application::Sass, Os::MacOs) => seq!["src/dart"@, "src/sass.snapshot"@],
            (Application::WasmOpt, Os::MacOs) => seq!["lib/libbinaryen.dylib"@],
            _ => Seq::empty(),
        }
    }

    /// The version that is used where the caller asks for none.
    pub open spec fn spec_default_version(self) -> Seq<char> {
        match self {
            Application::Sass => "1.54.9"@,
            Application::WasmBindgen => "0.2.83"@,
            Application::WasmOpt => "version_110"@,
        }
    }

    /// The command line argument that makes the tool print its version.
    pub open spec fn spec_version_test(self) -> Seq<char> {
        "--version"@
    }

    /// Whether `url` has an address for the host. That is so for every
    /// known system and architecture but Sass on Windows with aarch64. The
    /// address need not name an archive built for the host's architecture:
    /// the bindings generator is served as its x86_64 archive on aarch64 too.
    pub open spec fn spec_released_for(self, os: Os, arch: Arch) -> bool {
        &&& os.spec_supported()
        &&& arch.spec_supported()
        &&& !(self == Application::Sass && os == Os::Windows && arch == Arch::Aarch64)
    }

    /// Address of the release archive of `version` that serves the host.
    /// It means nothing where `spec_released_for` does not hold. The
    /// address of the bindings generator names the x86_64 archive whatever
    /// the architecture.
    pub open spec fn spec_url(self, version: Seq<char>, os: Os, arch: Arch) -> Seq<char> {
        match self {
            Application::Sass => {
                "https://github.com/sass/dart-sass/releases/download/"@ + version
                    + "/dart-sass-"@ + version + "-"@ + os.spec_label() + (if arch
                    == Arch::Aarch64 {
                    "-arm64"@
                } else {
                    "-x64"@
                }) + (if os == Os::Windows {
                    ".zip"@
                } else {
                    ".tar.gz"@
                })
            },
            Application::WasmBindgen => {
                "https://github.com/rustwasm/wasm-bindgen/releases/download/"@ + version
                    + "/wasm-bindgen-"@ + version + "-x86_64-"@ + (match os {
                    Os::Windows => "pc-windows-msvc"@,
                    Os::MacOs => "apple-darwin"@,
                    _ => "unknown-linux-musl"@,
                }) + ".tar.gz"@
            },
            Application::WasmOpt => {
                "https://github.com/WebAssembly/binaryen/releases/download/"@ + version
                    + "/binaryen-"@ + version + "-"@ + (if os == Os::MacOs && arch
                    == Arch::Aarch64 {
                    "arm64"@
                } else {
                    arch.spec_label()
                }) + "-"@ + os.spec_label() + ".tar.gz"@
            },
        }
    }

    /// The version that the output of a version query states, where the
    /// output has the shape that the tool is known to print. White space at
    /// the ends of the output does not count. Sass prints the version as its
    /// first line, of which the white space at the ends does not count
    /// either. The bindings generator prints it as the second of the
    /// words that single spaces separate, and the optimizer prints as the
    /// third word a number, which is the version once `version_` stands
    /// before it.
    pub open spec fn spec_format_version_output(self, text: Seq<char>) -> Option<Seq<char>> {
        let t = trim(text);
        match self {
            Application::Sass => first_line(t),
            Application::WasmBindgen => nth(split(t, ' '), 1),
            Application::WasmOpt => match nth(split(t, ' '), 2) {
                Some(word) => Some("version_"@ + word),
                None => None,
            },
        }
    }

    /// Base name of the executable, without extension.
    pub fn name(&self) -> (r: &'static str)
        ensures
            r@ == self.spec_name(),
    {
        match self {
            Application::Sass => "sass",
            Application::WasmBindgen => "wasm-bindgen",
            Application::WasmOpt => "wasm-opt",
        }
    }

    /// Path of the executable within the release archive for `os`, below
    /// the archive's top directory.
    pub fn path(&self, os: Os) -> (r: &'static str)
        ensures
            r@ == self.spec_path(os),
    {
        match os {
            Os::Windows => match self {
                Application::Sass => "sass.bat",
                Application::WasmBindgen => "wasm-bindgen.exe",
                Application::WasmOpt => "bin/wasm-opt.exe",
            },
            _ => match self {
                Application::Sass => "sass",
                Application::WasmBindgen => "wasm-bindgen",
                Application::WasmOpt => "bin/wasm-opt",
            },
        }
    }

    /// Paths of the files in the release archive for `os` that the
    /// executable needs beside it, in the order in which they are unpacked.
    pub fn extra_paths(&self, os: Os) -> (r: Vec<&'static str>)
        ensures
            str_views(r@) == self.spec_extra_paths(os),
    {
        let mut out: Vec<&'static str> = Vec::new();
        match self {
            Application::Sass => match os {
                Os::Windows => {
                    out.push("src/dart.exe");
                    out.push("src/sass.snapshot");
                },
                Os::MacOs => {
                    out.push("src/dart");
                    out.push("src/sass.snapshot");
                },
                _ => {},
            },
            Application::WasmBindgen => {},
            Application::WasmOpt => match os {
                Os::MacOs => {
                    out.push("lib/libbinaryen.dylib");
                },
                _ => {},
            },
        }
        assert(str_views(out@) =~= self.spec_extra_paths(os));
        out
    }

    /// The version that is used where the caller asks for none.
    pub fn default_version(&self) -> (r: &'static str)
        ensures
            r@ == self.spec_default_version(),
    {
        match self {
            Application::Sass => "1.54.9",
            Application::WasmBindgen => "0.2.83",
            Application::WasmOpt => "version_110",
        }
    }

    /// Address of the release archive of `version` that serves the host,
    /// or `UnsupportedPlatform` where there is none. The bindings generator
    /// is served as its x86_64 archive on either architecture.
    pub fn url(&self, version: &str, os: Os, arch: Arch) -> (r: Result<String, ToolError>)
        ensures
            match r {
                Ok(address) => self.spec_released_for(os, arch) && address@ == self.spec_url(
                    version@,
                    os,
                    arch,
                ),
                Err(e) => !self.spec_released_for(os, arch) && e@ == (
                ToolErrorView::UnsupportedPlatform { app: *self, os, arch }),
            },
    {
        let os_label = match os {
            Os::Windows => "windows",
            Os::MacOs => "macos",
            Os::Linux => "linux",
            Os::Other => {
                return Err(ToolError::UnsupportedPlatform { app: *self, os, arch });
            },
        };
        let arch_label = match arch {
            Arch::X86_64 => "x86_64",
            Arch::Aarch64 => "aarch64",
            Arch::Other => {
                return Err(ToolError::UnsupportedPlatform { app: *self, os, arch });
            },
        };
        match self {
            Application::Sass => {
                let windows = match os {
                    Os::Windows => true,
                    _ => false,
                };
                let arm = match arch {
                    Arch::Aarch64 => true,
                    _ => false,
                };
                if windows && arm {
                    return Err(ToolError::UnsupportedPlatform { app: *self, os, arch });
                }
                let mut s = String::from_str(
                    "https://github.com/sass/dart-sass/releases/download/",
                );
                s.append(version);
                s.append("/dart-sass-");
                s.append(version);
                s.append("-");
                s.append(os_label);
                s.append(if arm { "-arm64" } else { "-x64" });
                s.append(if windows { ".zip" } else { ".tar.gz" });
                assert(s@ =~= self.spec_url(version@, os, arch));
                Ok(s)
            },
            Application::WasmBindgen => {
                let triple = match os {
                    Os::Windows => "pc-windows-msvc",
                    Os::MacOs => "apple-darwin",
                    _ => "unknown-linux-musl",
                };
                let mut s = String::from_str(
                    "https://github.com/rustwasm/wasm-bindgen/releases/download/",
                );
                s.append(version);
                s.append("/wasm-bindgen-");
                s.append(version);
                s.append("-x86_64-");
                s.append(triple);
                s.append(".tar.gz");
                assert(s@ =~= self.spec_url(version@, os, arch));
                Ok(s)
            },
            Application::WasmOpt => {
                let mac_arm = match (os, arch) {
                    (Os::MacOs, Arch::Aarch64) => true,
                    _ => false,
                };
                let mut s = String::from_str(
                    "https://github.com/WebAssembly/binaryen/releases/download/",
                );
                s.append(version);
                s.append("/binaryen-");
                s.append(version);
                s.append("-");
                s.append(if mac_arm { "arm64" } else { arch_label });
                s.append("-");
                s.append(os_label);
                s.append(".tar.gz");
                assert(s@ =~= self.spec_url(version@, os, arch));
                Ok(s)
            },
        }
    }

    /// The command line argument that makes the tool print its version.
    pub fn version_test(&self) -> (r: &'static str)
        ensures
            r@ == self.spec_version_test(),
    {
        match self {
            Application::Sass => "--version",
            Application::WasmBindgen => "--version",
            Application::WasmOpt => "--version",
        }
    }

    /// Reads the version out of what the tool printed when asked for it, or
    /// fails with `MalformedVersionOutput` where the output has not the
    /// expected shape.
    pub fn format_version_output(&self, text: &str) -> (r: Result<String, ToolError>)
        ensures
            match r {
                Ok(version) => self.spec_format_version_output(text@) == Some(version@),
                Err(e) => self.spec_format_version_output(text@) is None && e@ == (
                ToolErrorView::MalformedVersionOutput { output: trim(text@) }),
            },
    {
        let cs = chars_of(text);
        let (a, b) = trim_bounds(&cs);
        let ghost t = trim(text@);
        let found: Option<(usize, usize)> = match self {
            Application::Sass => {
                if a == b {
                    None
                } else {
                    proof {
                        lemma_split_nonempty(t, '\n');
                    }
                    match piece_bounds(&cs, a, b, '\n', 0) {
                        Some((p, q)) => Some(trim_stretch(&cs, p, q)),
                        None => None,
                    }
                }
            },
            Application::WasmBindgen => piece_bounds(&cs, a, b, ' ', 1),
            Application::WasmOpt => piece_bounds(&cs, a, b, ' ', 2),
        };
        match found {
            Some((p, q)) => {
                let word = text.substring_char(p, q);
                match self {
                    Application::WasmOpt => {
                        let mut s = String::from_str("version_");
                        s.append(word);
                        Ok(s)
                    },
                    _ => Ok(String::from_str(word)),
                }
            },
            None => Err(
                ToolError::MalformedVersionOutput {
                    output: String::from_str(text.substring_char(a, b)),
                },
            ),
        }
    }
}

} // verus!
