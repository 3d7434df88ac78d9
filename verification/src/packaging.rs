//! The tools the pipeline runs, and what each is run with: the toolchain
//! that builds the crate, the tool that installs its targets, the tool that
//! fuses archives, and the packaging system with its two phases.

use vstd::prelude::*;
use crate::layout::{triple_of, Architecture, BuildTarget};
use crate::platform::{
    configuration, configuration_name, format_name, PluginFormat,
};
use crate::text::{appended, join_list, joined_list, push_string, strings};

verus! {

/// One run of an outside program.
#[derive(Debug, Clone, PartialEq, Eq)]
pub struct Invocation {
    /// The program to run.
    pub program: String,
    /// Its arguments, in order.
    pub args: Vec<String>,
    /// Variables to set for the program, besides those it inherits.
    pub env: Vec<(String, String)>,
    /// The directory to run it in; the current one if there is none.
    pub dir: Option<String>,
    /// Whether what it prints is captured rather than shown.
    pub captured: bool,
}

/// An `Invocation` as plain values.
pub struct InvocationView {
    pub program: Seq<char>,
    pub args: Seq<Seq<char>>,
    pub env: Seq<(Seq<char>, Seq<char>)>,
    pub dir: Option<Seq<char>>,
    pub captured: bool,
}

/// Variables as plain values.
pub open spec fn variables(env: Seq<(String, String)>) -> Seq<(Seq<char>, Seq<char>)> {
    env.map_values(|pair: (String, String)| (pair.0@, pair.1@))
}

impl View for Invocation {
    type V = InvocationView;

    open spec fn view(&self) -> InvocationView {
        InvocationView {
            program: self.program@,
            args: strings(self.args@),
            env: variables(self.env@),
            dir: match self.dir {
                Some(dir) => Some(dir@),
                None => None,
            },
            captured: self.captured,
        }
    }
}

/// What the packaging system is configured with. It is made once for a run
/// and does not change.
#[derive(Debug, Clone, PartialEq, Eq)]
pub struct PackagingConfig {
    project_name: String,
    static_library: String,
    bundle_id: String,
    output_dir: String,
    install: bool,
    formats: Vec<PluginFormat>,
    native_libraries: Vec<String>,
}

/// A `PackagingConfig` as plain values.
pub struct ConfigView {
    /// The name of the project: the crate's name as it was requested.
    pub project_name: Seq<char>,
    /// The static library to wrap.
    pub static_library: Seq<char>,
    /// The identifier that the bundles carry.
    pub bundle_id: Seq<char>,
    /// The directory into which the bundles are written.
    pub output_dir: Seq<char>,
    /// Whether the bundles are installed once they are built.
    pub install: bool,
    /// The formats to package.
    pub formats: Seq<PluginFormat>,
    /// The native libraries to link.
    pub native_libraries: Seq<Seq<char>>,
}

impl View for PackagingConfig {
    type V = ConfigView;

    closed spec fn view(&self) -> ConfigView {
        ConfigView {
            project_name: self.project_name@,
            static_library: self.static_library@,
            bundle_id: self.bundle_id@,
            output_dir: self.output_dir@,
            install: self.install,
            formats: self.formats@,
            native_libraries: strings(self.native_libraries@),
        }
    }
}

/// The arguments with which the toolchain builds a crate: verbosely, with
/// the release profile if asked, for the architecture's target if it has one.
pub open spec fn toolchain_arguments(crate_name: Seq<char>, release: bool, arch: Architecture) -> Seq<
    Seq<char>,
> {
    let verbose = seq!["build"@, "--verbose"@];
    let profiled = if release {
        verbose.push("--release"@)
    } else {
        verbose
    };
    let targeted = match triple_of(arch) {
        Some(triple) => profiled.push("--target"@).push(triple),
        None => profiled,
    };
    targeted.push("-p"@).push(crate_name)
}

/// The run of the toolchain that builds a crate. The linker is asked to be
/// verbose, so that the search directories appear in what is printed.
pub open spec fn toolchain_invocation(
    root: Seq<char>,
    crate_name: Seq<char>,
    release: bool,
    arch: Architecture,
) -> InvocationView {
    InvocationView {
        program: "cargo"@,
        args: toolchain_arguments(crate_name, release, arch),
        env: seq![("RUSTFLAGS"@, "-Wl,--verbose"@)],
        dir: Some(root),
        captured: true,
    }
}

/// The run that installs the targets of both of Apple's architectures.
pub open spec fn install_invocation() -> InvocationView {
    InvocationView {
        program: "rustup"@,
        args: seq!["target"@, "add"@, "x86_64-apple-darwin"@, "aarch64-apple-darwin"@],
        env: Seq::empty(),
        dir: None,
        captured: false,
    }
}

/// The run of the merge tool that fuses two archives into one.
pub open spec fn fuse_invocation(first: Seq<char>, second: Seq<char>, output: Seq<char>) -> InvocationView {
    InvocationView {
        program: "lipo"@,
        args: seq!["-create"@, first, second, "-output"@, output],
        env: Seq::empty(),
        dir: None,
        captured: false,
    }
}

/// The run of the merge tool that reports the architectures of an archive.
pub open spec fn query_invocation(archive: Seq<char>) -> InvocationView {
    InvocationView {
        program: "lipo"@,
        args: seq!["-info"@, archive],
        env: Seq::empty(),
        dir: None,
        captured: true,
    }
}

/// The names of formats.
pub open spec fn format_names(formats: Seq<PluginFormat>) -> Seq<Seq<char>> {
    formats.map_values(|f: PluginFormat| format_name(f))
}

/// The switch that tells the packaging system whether to install.
pub open spec fn install_switch(install: bool) -> Seq<char> {
    if install {
        "ON"@
    } else {
        "OFF"@
    }
}

/// The arguments of the configure phase: the template and build directories,
/// then one definition for each value of the configuration. The native
/// libraries are defined only if there are any.
pub open spec fn configure_arguments(
    config: ConfigView,
    source_dir: Seq<char>,
    build_dir: Seq<char>,
) -> Seq<Seq<char>> {
    let fixed = seq![
        "-S"@,
        source_dir,
        "-B"@,
        build_dir,
        "-DPROJECT_NAME="@ + config.project_name,
        "-DSTATIC_LIB_FILE="@ + config.static_library,
        "-DBUNDLE_ID="@ + config.bundle_id,
        "-DPLUGIN_OUTPUT_DIR="@ + config.output_dir,
        "-DINSTALL_PLUGINS_AFTER_BUILD="@ + install_switch(config.install),
        "-DPLUGIN_FORMATS="@ + joined_list(format_names(config.formats), ";"@),
    ];
    if config.native_libraries.len() > 0 {
        fixed.push("-DNATIVE_LIBRARIES="@ + joined_list(config.native_libraries, ";"@))
    } else {
        fixed
    }
}

/// The run of the packaging system's configure phase.
pub open spec fn configure_invocation(
    config: ConfigView,
    source_dir: Seq<char>,
    build_dir: Seq<char>,
) -> InvocationView {
    InvocationView {
        program: "cmake"@,
        args: configure_arguments(config, source_dir, build_dir),
        env: Seq::empty(),
        dir: None,
        captured: false,
    }
}

/// The run of the packaging system's build phase.
pub open spec fn package_invocation(build_dir: Seq<char>, release: bool) -> InvocationView {
    InvocationView {
        program: "cmake"@,
        args: seq!["--build"@, build_dir, "--config"@, configuration_name(release)],
        env: Seq::empty(),
        dir: None,
        captured: false,
    }
}

/// Makes the run of the toolchain that builds a crate.
pub fn build_crate(root: &str, crate_name: &str, target: BuildTarget) -> (run: Invocation)
    ensures
        run@ == toolchain_invocation(root@, crate_name@, target.release, target.architecture),
{
    let mut args: Vec<String> = Vec::new();
    assert(strings(args@) =~= Seq::<Seq<char>>::empty());
    push_string(&mut args, "build".to_owned());
    push_string(&mut args, "--verbose".to_owned());
    assert(strings(args@) =~= seq!["build"@, "--verbose"@]);
    if target.release {
        push_string(&mut args, "--release".to_owned());
    }
    match target.architecture.triple() {
        Some(triple) => {
            push_string(&mut args, "--target".to_owned());
            push_string(&mut args, triple.to_owned());
        },
        None => {},
    }
    push_string(&mut args, "-p".to_owned());
    push_string(&mut args, crate_name.to_owned());
    let mut env: Vec<(String, String)> = Vec::new();
    env.push(("RUSTFLAGS".to_owned(), "-Wl,--verbose".to_owned()));
    assert(variables(env@) =~= seq![("RUSTFLAGS"@, "-Wl,--verbose"@)]);
    Invocation { program: "cargo".to_owned(), args, env, dir: Some(root.to_owned()), captured: true }
}

/// Makes the run that installs the targets of both of Apple's architectures.
pub fn install_targets() -> (run: Invocation)
    ensures
        run@ == install_invocation(),
{
    let mut args: Vec<String> = Vec::new();
    assert(strings(args@) =~= Seq::<Seq<char>>::empty());
    push_string(&mut args, "target".to_owned());
    push_string(&mut args, "add".to_owned());
    push_string(&mut args, "x86_64-apple-darwin".to_owned());
    push_string(&mut args, "aarch64-apple-darwin".to_owned());
    assert(strings(args@) =~= install_invocation().args);
    let env: Vec<(String, String)> = Vec::new();
    assert(variables(env@) =~= Seq::<(Seq<char>, Seq<char>)>::empty());
    Invocation { program: "rustup".to_owned(), args, env, dir: None, captured: false }
}

/// Makes the run of the merge tool that fuses two archives into one.
pub fn fuse_archives(first: &str, second: &str, output: &str) -> (run: Invocation)
    ensures
        run@ == fuse_invocation(first@, second@, output@),
{
    let mut args: Vec<String> = Vec::new();
    assert(strings(args@) =~= Seq::<Seq<char>>::empty());
    push_string(&mut args, "-create".to_owned());
    push_string(&mut args, first.to_owned());
    push_string(&mut args, second.to_owned());
    push_string(&mut args, "-output".to_owned());
    push_string(&mut args, output.to_owned());
    assert(strings(args@) =~= fuse_invocation(first@, second@, output@).args);
    let env: Vec<(String, String)> = Vec::new();
    assert(variables(env@) =~= Seq::<(Seq<char>, Seq<char>)>::empty());
    Invocation { program: "lipo".to_owned(), args, env, dir: None, captured: false }
}

/// Makes the run of the merge tool that reports the architectures of an
/// archive.
pub fn query_archive(archive: &str) -> (run: Invocation)
    ensures
        run@ == query_invocation(archive@),
{
    let mut args: Vec<String> = Vec::new();
    assert(strings(args@) =~= Seq::<Seq<char>>::empty());
    push_string(&mut args, "-info".to_owned());
    push_string(&mut args, archive.to_owned());
    assert(strings(args@) =~= query_invocation(archive@).args);
    let env: Vec<(String, String)> = Vec::new();
    assert(variables(env@) =~= Seq::<(Seq<char>, Seq<char>)>::empty());
    Invocation { program: "lipo".to_owned(), args, env, dir: None, captured: true }
}

/// The names of `formats`, in order.
pub fn names_of(formats: &Vec<PluginFormat>) -> (names: Vec<String>)
    ensures
        strings(names@) == format_names(formats@),
{
    let mut names: Vec<String> = Vec::new();
    let mut i: usize = 0;
    assert(strings(names@) =~= format_names(formats@).take(0));
    while i < formats.len()
        invariant
            i <= formats.len(),
            strings(names@) == format_names(formats@).take(i as int),
        decreases formats.len() - i,
    {
        push_string(&mut names, formats[i].name().to_owned());
        assert(strings(names@) =~= format_names(formats@).take(i + 1));
        i = i + 1;
    }
    assert(format_names(formats@).take(formats.len() as int) =~= format_names(formats@));
    names
}

impl PackagingConfig {
    /// Puts a configuration together.
    pub fn new(
        project_name: String,
        static_library: String,
        bundle_id: String,
        output_dir: String,
        install: bool,
        formats: Vec<PluginFormat>,
        native_libraries: Vec<String>,
    ) -> (config: Self)
        ensures
            config@ == (ConfigView {
                project_name: project_name@,
                static_library: static_library@,
                bundle_id: bundle_id@,
                output_dir: output_dir@,
                install,
                formats: formats@,
                native_libraries: strings(native_libraries@),
            }),
    {
        PackagingConfig {
            project_name,
            static_library,
            bundle_id,
            output_dir,
            install,
            formats,
            native_libraries,
        }
    }

    /// The name of the project.
    pub fn project_name(&self) -> (name: &str)
        ensures
            name@ == self@.project_name,
    {
        self.project_name.as_str()
    }

    /// The static library to wrap.
    pub fn static_library(&self) -> (path: &str)
        ensures
            path@ == self@.static_library,
    {
        self.static_library.as_str()
    }

    /// The identifier that the bundles carry.
    pub fn bundle_id(&self) -> (id: &str)
        ensures
            id@ == self@.bundle_id,
    {
        self.bundle_id.as_str()
    }

    /// The directory into which the bundles are written.
    pub fn output_dir(&self) -> (dir: &str)
        ensures
            dir@ == self@.output_dir,
    {
        self.output_dir.as_str()
    }

    /// Whether the bundles are installed once they are built.
    pub fn install(&self) -> (install: bool)
        ensures
            install == self@.install,
    {
        self.install
    }

    /// The formats to package.
    pub fn formats(&self) -> (formats: &Vec<PluginFormat>)
        ensures
            formats@ == self@.formats,
    {
        &self.formats
    }

    /// The native libraries to link.
    pub fn native_libraries(&self) -> (libraries: &Vec<String>)
        ensures
            strings(libraries@) == self@.native_libraries,
    {
        &self.native_libraries
    }

    /// Makes the run of the configure phase, given the directory of the
    /// template and the directory to build in.
    pub fn configure(&self, source_dir: &str, build_dir: &str) -> (run: Invocation)
        ensures
            run@ == configure_invocation(self@, source_dir@, build_dir@),
    {
        let mut args: Vec<String> = Vec::new();
        assert(strings(args@) =~= Seq::<Seq<char>>::empty());
        push_string(&mut args, "-S".to_owned());
        push_string(&mut args, source_dir.to_owned());
        push_string(&mut args, "-B".to_owned());
        push_string(&mut args, build_dir.to_owned());
        push_string(&mut args, appended("-DPROJECT_NAME=", self.project_name.as_str()));
        push_string(&mut args, appended("-DSTATIC_LIB_FILE=", self.static_library.as_str()));
        push_string(&mut args, appended("-DBUNDLE_ID=", self.bundle_id.as_str()));
        push_string(&mut args, appended("-DPLUGIN_OUTPUT_DIR=", self.output_dir.as_str()));
        push_string(
            &mut args,
            appended(
                "-DINSTALL_PLUGINS_AFTER_BUILD=",
                if self.install {
                    "ON"
                } else {
                    "OFF"
                },
            ),
        );
        let names = names_of(&self.formats);
        let formats = join_list(&names, ";");
        push_string(&mut args, appended("-DPLUGIN_FORMATS=", formats.as_str()));
        if self.native_libraries.len() > 0 {
            let libraries = join_list(&self.native_libraries, ";");
            push_string(&mut args, appended("-DNATIVE_LIBRARIES=", libraries.as_str()));
        }
        assert(strings(args@) =~= configure_arguments(self@, source_dir@, build_dir@));
        let env: Vec<(String, String)> = Vec::new();
        assert(variables(env@) =~= Seq::<(Seq<char>, Seq<char>)>::empty());
        Invocation { program: "cmake".to_owned(), args, env, dir: None, captured: false }
    }
}

/// Makes the run of the packaging system's build phase.
pub fn build_packages(build_dir: &str, release: bool) -> (run: Invocation)
    ensures
        run@ == package_invocation(build_dir@, release),
{
    let mut args: Vec<String> = Vec::new();
    assert(strings(args@) =~= Seq::<Seq<char>>::empty());
    push_string(&mut args, "--build".to_owned());
    push_string(&mut args, build_dir.to_owned());
    push_string(&mut args, "--config".to_owned());
    push_string(&mut args, configuration(release).to_owned());
    assert(strings(args@) =~= package_invocation(build_dir@, release).args);
    let env: Vec<(String, String)> = Vec::new();
    assert(variables(env@) =~= Seq::<(Seq<char>, Seq<char>)>::empty());
    Invocation { program: "cmake".to_owned(), args, env, dir: None, captured: false }
}

} // verus!
