//! Where things stand below the root of a project: what the toolchain
//! writes, what the packaging system reads and writes, and where the bundles
//! end up.

use vstd::prelude::*;
use crate::paths::{join, joined};
use crate::platform::{profile_dir, profile_name, HostPlatform};
use crate::scanner::{normalize_name, normalized_name};
use crate::text::{appended, push_string, strings};

verus! {

/// The architectures a crate is built for.
#[derive(Debug, Clone, Copy, PartialEq, Eq, Structural)]
pub enum Architecture {
    /// The architecture of the host; the toolchain is given no target.
    Host,
    /// Apple's platform on x86-64.
    X86_64,
    /// Apple's platform on ARM64.
    Aarch64,
}

/// What one run of the toolchain builds for: an architecture and a profile.
#[derive(Debug, Clone, Copy, PartialEq, Eq, Structural)]
pub struct BuildTarget {
    /// The architecture to build for.
    pub architecture: Architecture,
    /// Whether to build with the release profile.
    pub release: bool,
}

/// A static library that was built, and the architectures it holds code
/// for.
#[derive(Debug, Clone, PartialEq, Eq)]
pub struct StaticLibraryArtifact {
    /// Where the library stands.
    pub path: String,
    /// The architectures it was built for.
    pub architectures: Vec<Architecture>,
}

/// A `StaticLibraryArtifact` as plain values.
pub struct ArtifactView {
    pub path: Seq<char>,
    pub architectures: Seq<Architecture>,
}

impl View for StaticLibraryArtifact {
    type V = ArtifactView;

    open spec fn view(&self) -> ArtifactView {
        ArtifactView { path: self.path@, architectures: self.architectures@ }
    }
}

/// The target triple that the toolchain is given for an architecture.
pub open spec fn triple_of(arch: Architecture) -> Option<Seq<char>> {
    match arch {
        Architecture::Host => None,
        Architecture::X86_64 => Some("x86_64-apple-darwin"@),
        Architecture::Aarch64 => Some("aarch64-apple-darwin"@),
    }
}

/// The directory that holds everything the pipeline builds.
pub open spec fn target_directory(platform: HostPlatform, root: Seq<char>) -> Seq<char> {
    joined(platform, root, "target"@)
}

/// The directory into which the toolchain builds for an architecture and a
/// profile.
pub open spec fn profile_directory(
    platform: HostPlatform,
    root: Seq<char>,
    arch: Architecture,
    release: bool,
) -> Seq<char> {
    match triple_of(arch) {
        None => joined(platform, target_directory(platform, root), profile_name(release)),
        Some(triple) => joined(
            platform,
            joined(platform, target_directory(platform, root), triple),
            profile_name(release),
        ),
    }
}

/// The file name of a crate's static library on a platform.
pub open spec fn static_library_name(platform: HostPlatform, crate_name: Seq<char>) -> Seq<char> {
    if platform == HostPlatform::Windows {
        normalized_name(crate_name) + ".lib"@
    } else {
        "lib"@ + normalized_name(crate_name) + ".a"@
    }
}

/// Where the toolchain leaves a crate's static library.
pub open spec fn static_library_path(
    platform: HostPlatform,
    root: Seq<char>,
    crate_name: Seq<char>,
    arch: Architecture,
    release: bool,
) -> Seq<char> {
    joined(
        platform,
        profile_directory(platform, root, arch, release),
        static_library_name(platform, crate_name),
    )
}

/// The directory that holds the archive fused from several architectures.
pub open spec fn universal_directory(platform: HostPlatform, root: Seq<char>) -> Seq<char> {
    joined(platform, target_directory(platform, root), "universal"@)
}

/// Where the archive fused from several architectures is written.
pub open spec fn universal_library_path(
    platform: HostPlatform,
    root: Seq<char>,
    crate_name: Seq<char>,
) -> Seq<char> {
    joined(
        platform,
        universal_directory(platform, root),
        static_library_name(platform, crate_name),
    )
}

/// The directory in which the packaging system builds.
pub open spec fn build_directory(platform: HostPlatform, root: Seq<char>) -> Seq<char> {
    joined(platform, root, "target/cmake-build"@)
}

/// The directory into which the packaging system writes the bundles.
pub open spec fn assets_directory(platform: HostPlatform, root: Seq<char>) -> Seq<char> {
    joined(platform, root, "target/cmake-assets"@)
}

/// The directory in which the bundles of a profile end up.
pub open spec fn output_directory(platform: HostPlatform, root: Seq<char>, release: bool) -> Seq<
    char,
> {
    joined(
        platform,
        joined(platform, target_directory(platform, root), profile_name(release)),
        "plugins"@,
    )
}

/// The directories that a clean run removes before anything is built: the
/// packaging system's build directory, the directory it writes the bundles
/// into, and the directory in which the bundles of the profile end up.
pub open spec fn clean_directories(platform: HostPlatform, root: Seq<char>, release: bool) -> Seq<
    Seq<char>,
> {
    seq![
        build_directory(platform, root),
        assets_directory(platform, root),
        output_directory(platform, root, release),
    ]
}

/// The directory that holds the packaging template.
pub open spec fn template_directory(platform: HostPlatform, root: Seq<char>) -> Seq<char> {
    joined(platform, root, "xtask/cmake"@)
}

/// The files that make up the packaging template: the build description
/// and the entry point's source and header.
pub open spec fn template_files(platform: HostPlatform, root: Seq<char>) -> Seq<Seq<char>> {
    seq![
        joined(platform, template_directory(platform, root), "CMakeLists.txt"@),
        joined(platform, template_directory(platform, root), "clap_entry.cpp"@),
        joined(platform, template_directory(platform, root), "clap_entry.h"@),
    ]
}

impl Architecture {
    /// The target triple that the toolchain is given for this architecture.
    pub fn triple(self) -> (triple: Option<&'static str>)
        ensures
            match triple_of(self) {
                Some(t) => triple matches Some(s) && s@ == t,
                None => triple is None,
            },
    {
        match self {
            Architecture::Host => None,
            Architecture::X86_64 => Some("x86_64-apple-darwin"),
            Architecture::Aarch64 => Some("aarch64-apple-darwin"),
        }
    }
}

/// The paths of one project on one platform.
#[derive(Debug, Clone, Copy)]
pub struct ProjectLayout<'a> {
    pub platform: HostPlatform,
    pub root: &'a str,
}

impl<'a> ProjectLayout<'a> {
    /// The directory that holds everything the pipeline builds.
    pub fn target_dir(&self) -> (path: String)
        ensures
            path@ == target_directory(self.platform, self.root@),
    {
        join(self.platform, self.root, "target")
    }

    /// The directory into which the toolchain builds.
    pub fn profile_dir(&self, target: BuildTarget) -> (path: String)
        ensures
            path@ == profile_directory(
                self.platform,
                self.root@,
                target.architecture,
                target.release,
            ),
    {
        let dir = self.target_dir();
        match target.architecture.triple() {
            None => join(self.platform, dir.as_str(), profile_dir(target.release)),
            Some(triple) => {
                let under = join(self.platform, dir.as_str(), triple);
                join(self.platform, under.as_str(), profile_dir(target.release))
            },
        }
    }

    /// The file name of the crate's static library.
    pub fn static_library_name(&self, crate_name: &str) -> (name: String)
        ensures
            name@ == static_library_name(self.platform, crate_name@),
    {
        let normalized = normalize_name(crate_name);
        match self.platform {
            HostPlatform::Windows => appended(normalized.as_str(), ".lib"),
            _ => {
                let stem = appended("lib", normalized.as_str());
                appended(stem.as_str(), ".a")
            },
        }
    }

    /// Where the toolchain leaves the crate's static library.
    pub fn static_library(&self, crate_name: &str, target: BuildTarget) -> (path: String)
        ensures
            path@ == static_library_path(
                self.platform,
                self.root@,
                crate_name@,
                target.architecture,
                target.release,
            ),
    {
        let dir = self.profile_dir(target);
        let name = self.static_library_name(crate_name);
        join(self.platform, dir.as_str(), name.as_str())
    }

    /// The directory that holds the fused archive.
    pub fn universal_dir(&self) -> (path: String)
        ensures
            path@ == universal_directory(self.platform, self.root@),
    {
        let target = self.target_dir();
        join(self.platform, target.as_str(), "universal")
    }

    /// Where the fused archive is written.
    pub fn universal_library(&self, crate_name: &str) -> (path: String)
        ensures
            path@ == universal_library_path(self.platform, self.root@, crate_name@),
    {
        let dir = self.universal_dir();
        let name = self.static_library_name(crate_name);
        join(self.platform, dir.as_str(), name.as_str())
    }

    /// The directory in which the packaging system builds.
    pub fn build_dir(&self) -> (path: String)
        ensures
            path@ == build_directory(self.platform, self.root@),
    {
        join(self.platform, self.root, "target/cmake-build")
    }

    /// The directory into which the packaging system writes the bundles.
    pub fn assets_dir(&self) -> (path: String)
        ensures
            path@ == assets_directory(self.platform, self.root@),
    {
        join(self.platform, self.root, "target/cmake-assets")
    }

    /// The directories that a clean run removes before anything is built.
    pub fn clean_dirs(&self, release: bool) -> (paths: Vec<String>)
        ensures
            strings(paths@) == clean_directories(self.platform, self.root@, release),
    {
        let mut paths: Vec<String> = Vec::new();
        assert(strings(paths@) =~= Seq::<Seq<char>>::empty());
        push_string(&mut paths, self.build_dir());
        push_string(&mut paths, self.assets_dir());
        push_string(&mut paths, self.output_dir(release));
        assert(strings(paths@) =~= clean_directories(self.platform, self.root@, release));
        paths
    }

    /// The directory in which the bundles of a profile end up.
    pub fn output_dir(&self, release: bool) -> (path: String)
        ensures
            path@ == output_directory(self.platform, self.root@, release),
    {
        let target = self.target_dir();
        let profile = join(self.platform, target.as_str(), profile_dir(release));
        join(self.platform, profile.as_str(), "plugins")
    }

    /// The directory that holds the packaging template.
    pub fn template_dir(&self) -> (path: String)
        ensures
            path@ == template_directory(self.platform, self.root@),
    {
        join(self.platform, self.root, "xtask/cmake")
    }

    /// The files that make up the packaging template.
    pub fn template_files(&self) -> (paths: Vec<String>)
        ensures
            strings(paths@) == template_files(self.platform, self.root@),
    {
        let dir = self.template_dir();
        let mut paths: Vec<String> = Vec::new();
        assert(strings(paths@) =~= Seq::<Seq<char>>::empty());
        push_string(&mut paths, join(self.platform, dir.as_str(), "CMakeLists.txt"));
        push_string(&mut paths, join(self.platform, dir.as_str(), "clap_entry.cpp"));
        push_string(&mut paths, join(self.platform, dir.as_str(), "clap_entry.h"));
        assert(strings(paths@) =~= template_files(self.platform, self.root@));
        paths
    }
}

} // verus!
