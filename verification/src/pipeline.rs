//! The pipeline as a machine: it is told what happened, and says what to do
//! next.
//!
//! The machine does nothing by itself. Whoever runs it carries out each
//! action on the host and reports the outcome as the next event, until the
//! machine says to finish or to abort.

use vstd::prelude::*;
use crate::error::{ErrorView, PipelineError};
use crate::layout::{
    assets_directory, build_directory, clean_directories, output_directory, static_library_path,
    template_directory, template_files, triple_of, universal_directory, universal_library_path,
    Architecture, ArtifactView, BuildTarget, ProjectLayout, StaticLibraryArtifact,
};
use crate::packaging::{
    build_crate, build_packages, configure_invocation, fuse_archives, fuse_invocation,
    install_invocation, install_targets, package_invocation, query_archive, query_invocation,
    toolchain_invocation, ConfigView, Invocation, InvocationView, PackagingConfig,
};
use crate::placer::{
    copy_plugin_files, lemma_placement_stays_below, operation_views, placement, placement_roots,
    roots_to_place, snapshot_views, written_path, FileOp, FileOpView, SnapshotView, TreeSnapshot,
};
use crate::platform::{layout_of, wants_universal_binary, HostPlatform, PluginFormat};
use crate::request::{BuildRequest, RequestView};
use crate::resolver::{
    merge_libraries, probe_views, resolution, resolve_libraries, DirectoryProbe, ProbeView,
};
use crate::scanner::{parse_native_libraries, scan};
use crate::text::{clone_strings, distinct, lemma_distinct, strings};

verus! {

/// What a program left behind when it exited.
#[derive(Debug, Clone, PartialEq, Eq)]
pub struct ToolchainOutput {
    /// Whether it reported success.
    pub success: bool,
    /// What it wrote to its standard output, if that was captured.
    pub stdout: Vec<u8>,
    /// What it wrote to its error stream, if that was captured.
    pub stderr: Vec<u8>,
}

/// A `ToolchainOutput` as plain values.
pub struct OutputView {
    pub success: bool,
    pub stdout: Seq<u8>,
    pub stderr: Seq<u8>,
}

impl View for ToolchainOutput {
    type V = OutputView;

    open spec fn view(&self) -> OutputView {
        OutputView { success: self.success, stdout: self.stdout@, stderr: self.stderr@ }
    }
}

/// What happened on the host.
#[derive(Debug, Clone, PartialEq, Eq)]
pub enum Event {
    /// The run begins.
    Start,
    /// What was asked for was done.
    Done,
    /// What was asked for could not be done; with the reason.
    Failed(String),
    /// The program ran and exited.
    Exited(ToolchainOutput),
    /// For each file that was asked about, whether it exists.
    Exist(Vec<bool>),
    /// For each directory that was asked about, what was found there.
    Probed(Vec<DirectoryProbe>),
    /// For each tree that was asked about, what it holds.
    Listed(Vec<TreeSnapshot>),
}

/// An `Event` as plain values.
pub enum EventView {
    Start,
    Done,
    Failed(Seq<char>),
    Exited(OutputView),
    Exist(Seq<bool>),
    Probed(Seq<ProbeView>),
    Listed(Seq<SnapshotView>),
}

impl View for Event {
    type V = EventView;

    open spec fn view(&self) -> EventView {
        match self {
            Event::Start => EventView::Start,
            Event::Done => EventView::Done,
            Event::Failed(reason) => EventView::Failed(reason@),
            Event::Exited(output) => EventView::Exited(output@),
            Event::Exist(flags) => EventView::Exist(flags@),
            Event::Probed(probes) => EventView::Probed(probe_views(probes@)),
            Event::Listed(snapshots) => EventView::Listed(snapshot_views(snapshots@)),
        }
    }
}

/// What is to be done on the host.
#[derive(Debug, Clone, PartialEq, Eq)]
pub enum Action {
    /// Remove these directories with all they hold; that one cannot be
    /// removed is no failure. Answered by `Done`.
    RemoveDirectories(Vec<String>),
    /// Run a program and wait for it. Answered by `Exited`, or by `Failed`
    /// if it could not be started.
    Run(Invocation),
    /// Find out which of these files exist. Answered by `Exist`.
    CheckFiles(Vec<String>),
    /// Find out what stands where these directories should be. Answered by
    /// `Probed`.
    ProbeDirectories(Vec<String>),
    /// Make a directory, and those above it. Answered by `Done` or `Failed`.
    CreateDirectory(String),
    /// List everything in these trees. Answered by `Listed`.
    ListTrees(Vec<String>),
    /// Carry out these operations in order. Answered by `Done` or `Failed`.
    Place(Vec<FileOp>),
    /// The run is over, and the bundles stand in this directory.
    Finish(String),
    /// The run is given up.
    Abort(PipelineError),
}

/// An `Action` as plain values.
pub enum ActionView {
    RemoveDirectories(Seq<Seq<char>>),
    Run(InvocationView),
    CheckFiles(Seq<Seq<char>>),
    ProbeDirectories(Seq<Seq<char>>),
    CreateDirectory(Seq<char>),
    ListTrees(Seq<Seq<char>>),
    Place(Seq<FileOpView>),
    Finish(Seq<char>),
    Abort(ErrorView),
}

impl View for Action {
    type V = ActionView;

    open spec fn view(&self) -> ActionView {
        match self {
            Action::RemoveDirectories(dirs) => ActionView::RemoveDirectories(strings(dirs@)),
            Action::Run(run) => ActionView::Run(run@),
            Action::CheckFiles(files) => ActionView::CheckFiles(strings(files@)),
            Action::ProbeDirectories(dirs) => ActionView::ProbeDirectories(strings(dirs@)),
            Action::CreateDirectory(dir) => ActionView::CreateDirectory(dir@),
            Action::ListTrees(roots) => ActionView::ListTrees(strings(roots@)),
            Action::Place(operations) => ActionView::Place(operation_views(operations@)),
            Action::Finish(dir) => ActionView::Finish(dir@),
            Action::Abort(error) => ActionView::Abort(error@),
        }
    }
}

/// Where a run stands: what it is waiting for.
#[derive(Debug, Clone, Copy, PartialEq, Eq, Structural)]
pub enum Phase {
    /// Nothing has been asked for yet.
    Start,
    /// The directories of earlier runs are being removed.
    Cleaning,
    /// The targets of the architectures are being installed.
    InstallingTargets,
    /// The toolchain is building for an architecture.
    Building(Architecture),
    /// The static library of an architecture is being looked for.
    CheckingArtifact(Architecture),
    /// The candidate directories of an architecture are being probed.
    Probing(Architecture),
    /// The directory of the fused archive is being made.
    CreatingUniversalDir,
    /// The merge tool is fusing the archives.
    Fusing,
    /// The merge tool is reporting on the fused archive.
    QueryingFusion,
    /// The fused archive is being looked for.
    CheckingFused,
    /// The packaging system's build directory is being made.
    CreatingBuildDir,
    /// The files of the packaging template are being looked for.
    CheckingTemplate,
    /// The directory for the packaging system's output is being made.
    CreatingAssetsDir,
    /// The directory for the bundles is being made.
    CreatingOutputDir,
    /// The packaging system is configuring.
    Configuring,
    /// The packaging system is building.
    Packaging,
    /// The packaging system's output is being listed.
    Snapshotting,
    /// The bundles are being placed.
    Placing,
    /// The run is over and the bundles are placed.
    Finished,
    /// The run was given up.
    Failed,
}

/// A run of the pipeline.
#[derive(Debug, Clone, PartialEq, Eq)]
pub struct Pipeline {
    platform: HostPlatform,
    root: String,
    request: BuildRequest,
    phase: Phase,
    stdout: Vec<u8>,
    stderr: Vec<u8>,
    candidates: Vec<String>,
    libraries: Vec<String>,
}

/// A `Pipeline` as plain values.
pub struct PipelineView {
    /// The platform of the host.
    pub platform: HostPlatform,
    /// The root of the project.
    pub root: Seq<char>,
    /// What was asked for.
    pub request: RequestView,
    /// What the run is waiting for.
    pub phase: Phase,
    /// What the last build printed, until it is scanned.
    pub stdout: Seq<u8>,
    /// What the last build wrote to its error stream, until it is scanned.
    pub stderr: Seq<u8>,
    /// The candidate directories of the last build, until they are resolved.
    pub candidates: Seq<Seq<char>>,
    /// The native libraries found so far.
    pub libraries: Seq<Seq<char>>,
}

impl View for Pipeline {
    type V = PipelineView;

    closed spec fn view(&self) -> PipelineView {
        PipelineView {
            platform: self.platform,
            root: self.root@,
            request: self.request@,
            phase: self.phase,
            stdout: self.stdout@,
            stderr: self.stderr@,
            candidates: strings(self.candidates@),
            libraries: strings(self.libraries@),
        }
    }
}

/// A run at its beginning.
pub open spec fn initial(platform: HostPlatform, root: Seq<char>, request: RequestView) -> PipelineView {
    PipelineView {
        platform,
        root,
        request,
        phase: Phase::Start,
        stdout: Seq::empty(),
        stderr: Seq::empty(),
        candidates: Seq::empty(),
        libraries: Seq::empty(),
    }
}

/// The run goes on to `phase`, and `action` is asked for.
pub open spec fn proceed(p: PipelineView, phase: Phase, action: ActionView) -> (
    PipelineView,
    ActionView,
) {
    (PipelineView { phase, ..p }, action)
}

/// The run is given up with `error`.
pub open spec fn abort(p: PipelineView, error: ErrorView) -> (PipelineView, ActionView) {
    (PipelineView { phase: Phase::Failed, ..p }, ActionView::Abort(error))
}

/// The run is given up because the event does not answer what was asked.
pub open spec fn unexpected(p: PipelineView) -> (PipelineView, ActionView) {
    abort(p, ErrorView::UnexpectedEvent)
}

/// The toolchain is set to build for `arch`.
pub open spec fn begin_build(p: PipelineView, arch: Architecture) -> (PipelineView, ActionView) {
    proceed(
        p,
        Phase::Building(arch),
        ActionView::Run(toolchain_invocation(p.root, p.request.crate_name, p.request.release, arch)),
    )
}

/// What follows cleaning: where one archive for several architectures is
/// wanted, their targets are installed; elsewhere the crate is built for the
/// host.
pub open spec fn after_cleaning(p: PipelineView) -> (PipelineView, ActionView) {
    if wants_universal_binary(p.platform) {
        proceed(p, Phase::InstallingTargets, ActionView::Run(install_invocation()))
    } else {
        begin_build(p, Architecture::Host)
    }
}

/// The first step of a run: a clean run removes what earlier runs left,
/// any other run goes on at once.
pub open spec fn begin(p: PipelineView) -> (PipelineView, ActionView) {
    if p.request.clean {
        proceed(
            p,
            Phase::Cleaning,
            ActionView::RemoveDirectories(
                clean_directories(p.platform, p.root, p.request.release),
            ),
        )
    } else {
        after_cleaning(p)
    }
}

/// The packaging begins: its build directory is made.
pub open spec fn begin_packaging(p: PipelineView) -> (PipelineView, ActionView) {
    proceed(
        p,
        Phase::CreatingBuildDir,
        ActionView::CreateDirectory(build_directory(p.platform, p.root)),
    )
}

/// The static library that is packaged: the fused archive where one is
/// wanted, elsewhere the library built for the host.
pub open spec fn packaged_library(p: PipelineView) -> Seq<char> {
    if wants_universal_binary(p.platform) {
        universal_library_path(p.platform, p.root, p.request.crate_name)
    } else {
        static_library_path(
            p.platform,
            p.root,
            p.request.crate_name,
            Architecture::Host,
            p.request.release,
        )
    }
}

/// The static library that is packaged, and what it was built for.
pub open spec fn packaged_artifact(p: PipelineView) -> ArtifactView {
    ArtifactView {
        path: packaged_library(p),
        architectures: if wants_universal_binary(p.platform) {
            seq![Architecture::X86_64, Architecture::Aarch64]
        } else {
            seq![Architecture::Host]
        },
    }
}

/// What the packaging system is configured with.
pub open spec fn packaging_config(p: PipelineView) -> ConfigView {
    ConfigView {
        project_name: p.request.crate_name,
        static_library: packaged_library(p),
        bundle_id: p.request.bundle_id,
        output_dir: assets_directory(p.platform, p.root),
        install: p.request.install,
        formats: p.request.formats,
        native_libraries: p.libraries,
    }
}

/// What follows the resolving of an architecture's libraries: after the
/// host's, packaging; after the first of Apple's, the build for the second;
/// after the second, the fusing.
pub open spec fn after_architecture(p: PipelineView, arch: Architecture) -> (
    PipelineView,
    ActionView,
) {
    match arch {
        Architecture::Host => begin_packaging(p),
        Architecture::X86_64 => begin_build(p, Architecture::Aarch64),
        Architecture::Aarch64 => proceed(
            p,
            Phase::CreatingUniversalDir,
            ActionView::CreateDirectory(universal_directory(p.platform, p.root)),
        ),
    }
}

/// The steps of building for one architecture: the build itself, the look
/// for its static library, the scan of what it printed, and the resolving of
/// the directories into native libraries.
pub open spec fn next_architecture(p: PipelineView, arch: Architecture, e: EventView) -> (
    PipelineView,
    ActionView,
) {
    let library = static_library_path(
        p.platform,
        p.root,
        p.request.crate_name,
        arch,
        p.request.release,
    );
    match (p.phase, e) {
        (Phase::Building(_), EventView::Exited(output)) => {
            if output.success {
                proceed(
                    PipelineView { stdout: output.stdout, stderr: output.stderr, ..p },
                    Phase::CheckingArtifact(arch),
                    ActionView::CheckFiles(seq![library]),
                )
            } else {
                abort(
                    p,
                    ErrorView::BuildFailure { target: triple_of(arch), diagnostics: output.stderr },
                )
            }
        },
        (Phase::CheckingArtifact(_), EventView::Exist(flags)) => {
            if flags.len() != 1 {
                unexpected(p)
            } else if !flags[0] {
                abort(p, ErrorView::ArtifactNotFound { path: library })
            } else {
                match scan(p.stdout, p.stderr, p.request.crate_name) {
                    None => abort(p, ErrorView::UndecodableDiagnostics),
                    Some(candidates) => proceed(
                        PipelineView {
                            stdout: Seq::empty(),
                            stderr: Seq::empty(),
                            candidates,
                            ..p
                        },
                        Phase::Probing(arch),
                        ActionView::ProbeDirectories(candidates),
                    ),
                }
            }
        },
        (Phase::Probing(_), EventView::Probed(probes)) => {
            match resolution(p.platform, p.candidates, probes) {
                Err(error) => abort(p, error),
                Ok(files) => after_architecture(
                    PipelineView {
                        candidates: Seq::empty(),
                        libraries: distinct(p.libraries + files),
                        ..p
                    },
                    arch,
                ),
            }
        },
        (_, EventView::Failed(reason)) => abort(p, ErrorView::FilesystemError { detail: reason }),
        _ => unexpected(p),
    }
}

/// The steps that only a build for several architectures has: installing
/// the targets before anything is built, and fusing the archives after.
pub open spec fn next_universal(p: PipelineView, e: EventView) -> (PipelineView, ActionView) {
    let fused = universal_library_path(p.platform, p.root, p.request.crate_name);
    match (p.phase, e) {
        (Phase::InstallingTargets, EventView::Exited(output)) => {
            if output.success {
                begin_build(p, Architecture::X86_64)
            } else {
                abort(p, ErrorView::ToolchainUnavailable { detail: Seq::empty() })
            }
        },
        (Phase::InstallingTargets, EventView::Failed(reason)) => abort(
            p,
            ErrorView::ToolchainUnavailable { detail: reason },
        ),
        (Phase::CreatingUniversalDir, EventView::Done) => proceed(
            p,
            Phase::Fusing,
            ActionView::Run(
                fuse_invocation(
                    static_library_path(
                        p.platform,
                        p.root,
                        p.request.crate_name,
                        Architecture::X86_64,
                        p.request.release,
                    ),
                    static_library_path(
                        p.platform,
                        p.root,
                        p.request.crate_name,
                        Architecture::Aarch64,
                        p.request.release,
                    ),
                    fused,
                ),
            ),
        ),
        (Phase::Fusing, EventView::Exited(output)) => {
            if output.success {
                proceed(p, Phase::QueryingFusion, ActionView::Run(query_invocation(fused)))
            } else {
                abort(p, ErrorView::FusionFailure)
            }
        },
        (Phase::QueryingFusion, EventView::Exited(_)) => proceed(
            p,
            Phase::CheckingFused,
            ActionView::CheckFiles(seq![fused]),
        ),
        (Phase::CheckingFused, EventView::Exist(flags)) => {
            if flags.len() != 1 {
                unexpected(p)
            } else if !flags[0] {
                abort(p, ErrorView::ArtifactNotFound { path: fused })
            } else {
                begin_packaging(p)
            }
        },
        (_, EventView::Failed(reason)) => abort(p, ErrorView::FilesystemError { detail: reason }),
        _ => unexpected(p),
    }
}

/// The steps of packaging and placing: the directories are made, the
/// template is looked for, the packaging system configures and builds, and
/// what it wrote is listed and placed.
pub open spec fn next_packaging(p: PipelineView, e: EventView) -> (PipelineView, ActionView) {
    let build_dir = build_directory(p.platform, p.root);
    let assets = assets_directory(p.platform, p.root);
    let output = output_directory(p.platform, p.root, p.request.release);
    match (p.phase, e) {
        (Phase::CreatingBuildDir, EventView::Done) => proceed(
            p,
            Phase::CheckingTemplate,
            ActionView::CheckFiles(template_files(p.platform, p.root)),
        ),
        (Phase::CheckingTemplate, EventView::Exist(flags)) => {
            if flags.len() != 3 {
                unexpected(p)
            } else if flags[0] && flags[1] && flags[2] {
                proceed(p, Phase::CreatingAssetsDir, ActionView::CreateDirectory(assets))
            } else {
                abort(p, ErrorView::MissingTemplate)
            }
        },
        (Phase::CreatingAssetsDir, EventView::Done) => proceed(
            p,
            Phase::CreatingOutputDir,
            ActionView::CreateDirectory(output),
        ),
        (Phase::CreatingOutputDir, EventView::Done) => proceed(
            p,
            Phase::Configuring,
            ActionView::Run(
                configure_invocation(
                    packaging_config(p),
                    template_directory(p.platform, p.root),
                    build_dir,
                ),
            ),
        ),
        (Phase::Configuring, EventView::Exited(out)) => {
            if out.success {
                proceed(
                    p,
                    Phase::Packaging,
                    ActionView::Run(package_invocation(build_dir, p.request.release)),
                )
            } else {
                abort(p, ErrorView::PackagingConfigureFailure)
            }
        },
        (Phase::Packaging, EventView::Exited(out)) => {
            if out.success {
                proceed(
                    p,
                    Phase::Snapshotting,
                    ActionView::ListTrees(
                        placement_roots(
                            p.platform,
                            layout_of(p.platform),
                            assets,
                            p.request.formats,
                            p.request.release,
                        ),
                    ),
                )
            } else {
                abort(p, ErrorView::PackagingBuildFailure)
            }
        },
        (Phase::Snapshotting, EventView::Listed(snapshots)) => {
            match placement(
                p.platform,
                layout_of(p.platform),
                assets,
                output,
                p.request.release,
                p.request.formats,
                snapshots,
            ) {
                Err(error) => abort(p, error),
                Ok(operations) => proceed(p, Phase::Placing, ActionView::Place(operations)),
            }
        },
        (Phase::Placing, EventView::Done) => proceed(p, Phase::Finished, ActionView::Finish(output)),
        (_, EventView::Failed(reason)) => abort(p, ErrorView::FilesystemError { detail: reason }),
        _ => unexpected(p),
    }
}

/// What the machine does in a state when an event arrives: the state it goes
/// to and the action it asks for.
pub open spec fn next(p: PipelineView, e: EventView) -> (PipelineView, ActionView) {
    match p.phase {
        Phase::Start => match e {
            EventView::Start => begin(p),
            _ => unexpected(p),
        },
        Phase::Cleaning => match e {
            EventView::Done => after_cleaning(p),
            EventView::Failed(_) => after_cleaning(p),
            _ => unexpected(p),
        },
        Phase::Building(arch) => next_architecture(p, arch, e),
        Phase::CheckingArtifact(arch) => next_architecture(p, arch, e),
        Phase::Probing(arch) => next_architecture(p, arch, e),
        Phase::InstallingTargets => next_universal(p, e),
        Phase::CreatingUniversalDir => next_universal(p, e),
        Phase::Fusing => next_universal(p, e),
        Phase::QueryingFusion => next_universal(p, e),
        Phase::CheckingFused => next_universal(p, e),
        Phase::CreatingBuildDir => next_packaging(p, e),
        Phase::CheckingTemplate => next_packaging(p, e),
        Phase::CreatingAssetsDir => next_packaging(p, e),
        Phase::CreatingOutputDir => next_packaging(p, e),
        Phase::Configuring => next_packaging(p, e),
        Phase::Packaging => next_packaging(p, e),
        Phase::Snapshotting => next_packaging(p, e),
        Phase::Placing => next_packaging(p, e),
        Phase::Finished => unexpected(p),
        Phase::Failed => unexpected(p),
    }
}

/// A list that holds one string.
fn single(item: String) -> (items: Vec<String>)
    ensures
        strings(items@) == seq![item@],
{
    let mut items: Vec<String> = Vec::new();
    items.push(item);
    assert(strings(items@) =~= seq![item@]);
    items
}

/// A copy of `formats`.
fn clone_formats(formats: &Vec<PluginFormat>) -> (copy: Vec<PluginFormat>)
    ensures
        copy@ == formats@,
{
    let mut copy: Vec<PluginFormat> = Vec::new();
    let mut i: usize = 0;
    while i < formats.len()
        invariant
            i <= formats.len(),
            copy@ == formats@.take(i as int),
        decreases formats.len() - i,
    {
        copy.push(formats[i]);
        assert(copy@ =~= formats@.take(i + 1));
        i = i + 1;
    }
    assert(formats@.take(formats.len() as int) =~= formats@);
    copy
}

impl Pipeline {
    /// A run at its beginning, for a project rooted at `root`.
    pub fn new(platform: HostPlatform, root: String, request: BuildRequest) -> (pipeline: Self)
        ensures
            pipeline@ == initial(platform, root@, request@),
    {
        let candidates: Vec<String> = Vec::new();
        let libraries: Vec<String> = Vec::new();
        assert(strings(candidates@) =~= Seq::<Seq<char>>::empty());
        assert(strings(libraries@) =~= Seq::<Seq<char>>::empty());
        Pipeline {
            platform,
            root,
            request,
            phase: Phase::Start,
            stdout: Vec::new(),
            stderr: Vec::new(),
            candidates,
            libraries,
        }
    }

    /// What the run is waiting for.
    pub fn phase(&self) -> (phase: Phase)
        ensures
            phase == self@.phase,
    {
        self.phase
    }

    /// What was asked for.
    pub fn request(&self) -> (request: &BuildRequest)
        ensures
            request@ == self@.request,
    {
        &self.request
    }

    /// The native libraries found so far.
    pub fn native_libraries(&self) -> (libraries: &Vec<String>)
        ensures
            strings(libraries@) == self@.libraries,
    {
        &self.libraries
    }

    /// The static library that is packaged, and what it was built for.
    pub fn artifact(&self) -> (artifact: StaticLibraryArtifact)
        ensures
            artifact@ == packaged_artifact(self@),
    {
        let layout = ProjectLayout { platform: self.platform, root: self.root.as_str() };
        if self.platform.needs_universal_binary() {
            let architectures = vec![Architecture::X86_64, Architecture::Aarch64];
            assert(architectures@ =~= seq![Architecture::X86_64, Architecture::Aarch64]);
            StaticLibraryArtifact {
                path: layout.universal_library(self.request.crate_name()),
                architectures,
            }
        } else {
            let architectures = vec![Architecture::Host];
            assert(architectures@ =~= seq![Architecture::Host]);
            StaticLibraryArtifact {
                path: layout.static_library(
                    self.request.crate_name(),
                    BuildTarget {
                        architecture: Architecture::Host,
                        release: self.request.release(),
                    },
                ),
                architectures,
            }
        }
    }

    /// Goes on to `phase` and asks for `action`.
    fn proceed(self, phase: Phase, action: Action) -> (step: (Pipeline, Action))
        ensures
            (step.0@, step.1@) == proceed(self@, phase, action@),
    {
        let mut pipeline = self;
        pipeline.phase = phase;
        (pipeline, action)
    }

    /// Gives the run up with `error`.
    fn abort(self, error: PipelineError) -> (step: (Pipeline, Action))
        ensures
            (step.0@, step.1@) == abort(self@, error@),
    {
        let mut pipeline = self;
        pipeline.phase = Phase::Failed;
        (pipeline, Action::Abort(error))
    }

    /// Sets the toolchain to build for `arch`.
    fn begin_build(self, arch: Architecture) -> (step: (Pipeline, Action))
        ensures
            (step.0@, step.1@) == begin_build(self@, arch),
    {
        let run = build_crate(
            self.root.as_str(),
            self.request.crate_name(),
            BuildTarget { architecture: arch, release: self.request.release() },
        );
        self.proceed(Phase::Building(arch), Action::Run(run))
    }

    /// Does what follows cleaning.
    fn after_cleaning(self) -> (step: (Pipeline, Action))
        ensures
            (step.0@, step.1@) == after_cleaning(self@),
    {
        if self.platform.needs_universal_binary() {
            self.proceed(Phase::InstallingTargets, Action::Run(install_targets()))
        } else {
            self.begin_build(Architecture::Host)
        }
    }

    /// Takes the first step of a run.
    fn begin(self) -> (step: (Pipeline, Action))
        ensures
            (step.0@, step.1@) == begin(self@),
    {
        if self.request.clean() {
            let dirs = ProjectLayout {
                platform: self.platform,
                root: self.root.as_str(),
            }.clean_dirs(self.request.release());
            self.proceed(Phase::Cleaning, Action::RemoveDirectories(dirs))
        } else {
            self.after_cleaning()
        }
    }

    /// Begins the packaging.
    fn begin_packaging(self) -> (step: (Pipeline, Action))
        ensures
            (step.0@, step.1@) == begin_packaging(self@),
    {
        let dir = ProjectLayout { platform: self.platform, root: self.root.as_str() }.build_dir();
        self.proceed(Phase::CreatingBuildDir, Action::CreateDirectory(dir))
    }

    /// Does what follows the resolving of an architecture's libraries.
    fn after_architecture(self, arch: Architecture) -> (step: (Pipeline, Action))
        ensures
            (step.0@, step.1@) == after_architecture(self@, arch),
    {
        match arch {
            Architecture::Host => self.begin_packaging(),
            Architecture::X86_64 => self.begin_build(Architecture::Aarch64),
            Architecture::Aarch64 => {
                let dir = ProjectLayout {
                    platform: self.platform,
                    root: self.root.as_str(),
                }.universal_dir();
                self.proceed(Phase::CreatingUniversalDir, Action::CreateDirectory(dir))
            },
        }
    }

    /// One step of building for one architecture.
    pub fn build_architecture(self, arch: Architecture, event: Event) -> (step: (Pipeline, Action))
        ensures
            (step.0@, step.1@) == next_architecture(self@, arch, event@),
    {
        let library = ProjectLayout {
            platform: self.platform,
            root: self.root.as_str(),
        }.static_library(
            self.request.crate_name(),
            BuildTarget { architecture: arch, release: self.request.release() },
        );
        match event {
            Event::Exited(output) => match self.phase {
                Phase::Building(_) => {
                    if output.success {
                        let mut pipeline = self;
                        pipeline.stdout = output.stdout;
                        pipeline.stderr = output.stderr;
                        pipeline.proceed(
                            Phase::CheckingArtifact(arch),
                            Action::CheckFiles(single(library)),
                        )
                    } else {
                        let target = match arch.triple() {
                            Some(triple) => Some(triple.to_owned()),
                            None => None,
                        };
                        self.abort(
                            PipelineError::BuildFailure { target, diagnostics: output.stderr },
                        )
                    }
                },
                _ => self.abort(PipelineError::UnexpectedEvent),
            },
            Event::Exist(flags) => match self.phase {
                Phase::CheckingArtifact(_) => {
                    if flags.len() != 1 {
                        self.abort(PipelineError::UnexpectedEvent)
                    } else if !flags[0] {
                        self.abort(PipelineError::ArtifactNotFound { path: library })
                    } else {
                        let scanned = parse_native_libraries(
                            self.stdout.as_slice(),
                            self.stderr.as_slice(),
                            self.request.crate_name(),
                        );
                        match scanned {
                            Err(error) => self.abort(error),
                            Ok(candidates) => {
                                let mut pipeline = self;
                                pipeline.stdout = Vec::new();
                                pipeline.stderr = Vec::new();
                                pipeline.candidates = clone_strings(&candidates);
                                pipeline.proceed(
                                    Phase::Probing(arch),
                                    Action::ProbeDirectories(candidates),
                                )
                            },
                        }
                    }
                },
                _ => self.abort(PipelineError::UnexpectedEvent),
            },
            Event::Probed(probes) => match self.phase {
                Phase::Probing(_) => {
                    let resolved = resolve_libraries(self.platform, &self.candidates, &probes);
                    match resolved {
                        Err(error) => self.abort(error),
                        Ok(files) => {
                            let Pipeline {
                                platform,
                                root,
                                request,
                                phase,
                                stdout,
                                stderr,
                                candidates: _,
                                libraries,
                            } = self;
                            let emptied: Vec<String> = Vec::new();
                            assert(strings(emptied@) =~= Seq::<Seq<char>>::empty());
                            let pipeline = Pipeline {
                                platform,
                                root,
                                request,
                                phase,
                                stdout,
                                stderr,
                                candidates: emptied,
                                libraries: merge_libraries(libraries, files),
                            };
                            pipeline.after_architecture(arch)
                        },
                    }
                },
                _ => self.abort(PipelineError::UnexpectedEvent),
            },
            Event::Failed(reason) => self.abort(PipelineError::FilesystemError { detail: reason }),
            _ => self.abort(PipelineError::UnexpectedEvent),
        }
    }

    /// One step of what only a build for several architectures has:
    /// installing the targets, and fusing the archives.
    pub fn build_universal_macos_binary(self, event: Event) -> (step: (Pipeline, Action))
        ensures
            (step.0@, step.1@) == next_universal(self@, event@),
    {
        let layout = ProjectLayout { platform: self.platform, root: self.root.as_str() };
        let fused = layout.universal_library(self.request.crate_name());
        match event {
            Event::Exited(output) => match self.phase {
                Phase::InstallingTargets => {
                    if output.success {
                        self.begin_build(Architecture::X86_64)
                    } else {
                        self.abort(PipelineError::ToolchainUnavailable { detail: String::new() })
                    }
                },
                Phase::Fusing => {
                    if output.success {
                        let run = query_archive(fused.as_str());
                        self.proceed(Phase::QueryingFusion, Action::Run(run))
                    } else {
                        self.abort(PipelineError::FusionFailure)
                    }
                },
                Phase::QueryingFusion => self.proceed(
                    Phase::CheckingFused,
                    Action::CheckFiles(single(fused)),
                ),
                _ => self.abort(PipelineError::UnexpectedEvent),
            },
            Event::Failed(reason) => match self.phase {
                Phase::InstallingTargets => self.abort(
                    PipelineError::ToolchainUnavailable { detail: reason },
                ),
                _ => self.abort(PipelineError::FilesystemError { detail: reason }),
            },
            Event::Done => match self.phase {
                Phase::CreatingUniversalDir => {
                    let first = layout.static_library(
                        self.request.crate_name(),
                        BuildTarget {
                            architecture: Architecture::X86_64,
                            release: self.request.release(),
                        },
                    );
                    let second = layout.static_library(
                        self.request.crate_name(),
                        BuildTarget {
                            architecture: Architecture::Aarch64,
                            release: self.request.release(),
                        },
                    );
                    let run = fuse_archives(first.as_str(), second.as_str(), fused.as_str());
                    self.proceed(Phase::Fusing, Action::Run(run))
                },
                _ => self.abort(PipelineError::UnexpectedEvent),
            },
            Event::Exist(flags) => match self.phase {
                Phase::CheckingFused => {
                    if flags.len() != 1 {
                        self.abort(PipelineError::UnexpectedEvent)
                    } else if !flags[0] {
                        self.abort(PipelineError::ArtifactNotFound { path: fused })
                    } else {
                        self.begin_packaging()
                    }
                },
                _ => self.abort(PipelineError::UnexpectedEvent),
            },
            _ => self.abort(PipelineError::UnexpectedEvent),
        }
    }

    /// What the packaging system is configured with.
    pub fn packaging_config(&self) -> (config: PackagingConfig)
        ensures
            config@ == packaging_config(self@),
    {
        let layout = ProjectLayout { platform: self.platform, root: self.root.as_str() };
        PackagingConfig::new(
            self.request.crate_name().to_owned(),
            self.artifact().path,
            self.request.bundle_id().to_owned(),
            layout.assets_dir(),
            self.request.install(),
            clone_formats(self.request.formats()),
            clone_strings(&self.libraries),
        )
    }

    /// One step of packaging and placing.
    pub fn package_plugin(self, event: Event) -> (step: (Pipeline, Action))
        ensures
            (step.0@, step.1@) == next_packaging(self@, event@),
    {
        let layout = ProjectLayout { platform: self.platform, root: self.root.as_str() };
        match event {
            Event::Done => match self.phase {
                Phase::CreatingBuildDir => {
                    let files = layout.template_files();
                    self.proceed(Phase::CheckingTemplate, Action::CheckFiles(files))
                },
                Phase::CreatingAssetsDir => {
                    let dir = layout.output_dir(self.request.release());
                    self.proceed(Phase::CreatingOutputDir, Action::CreateDirectory(dir))
                },
                Phase::CreatingOutputDir => {
                    let config = self.packaging_config();
                    let run = config.configure(
                        layout.template_dir().as_str(),
                        layout.build_dir().as_str(),
                    );
                    self.proceed(Phase::Configuring, Action::Run(run))
                },
                Phase::Placing => {
                    let dir = layout.output_dir(self.request.release());
                    self.proceed(Phase::Finished, Action::Finish(dir))
                },
                _ => self.abort(PipelineError::UnexpectedEvent),
            },
            Event::Exist(flags) => match self.phase {
                Phase::CheckingTemplate => {
                    if flags.len() != 3 {
                        self.abort(PipelineError::UnexpectedEvent)
                    } else if flags[0] && flags[1] && flags[2] {
                        let dir = layout.assets_dir();
                        self.proceed(Phase::CreatingAssetsDir, Action::CreateDirectory(dir))
                    } else {
                        self.abort(PipelineError::MissingTemplate)
                    }
                },
                _ => self.abort(PipelineError::UnexpectedEvent),
            },
            Event::Exited(output) => match self.phase {
                Phase::Configuring => {
                    if output.success {
                        let run = build_packages(
                            layout.build_dir().as_str(),
                            self.request.release(),
                        );
                        self.proceed(Phase::Packaging, Action::Run(run))
                    } else {
                        self.abort(PipelineError::PackagingConfigureFailure)
                    }
                },
                Phase::Packaging => {
                    if output.success {
                        let roots = roots_to_place(
                            self.platform,
                            self.platform.layout(),
                            layout.assets_dir().as_str(),
                            self.request.formats(),
                            self.request.release(),
                        );
                        self.proceed(Phase::Snapshotting, Action::ListTrees(roots))
                    } else {
                        self.abort(PipelineError::PackagingBuildFailure)
                    }
                },
                _ => self.abort(PipelineError::UnexpectedEvent),
            },
            Event::Listed(snapshots) => match self.phase {
                Phase::Snapshotting => {
                    let plan = copy_plugin_files(
                        self.platform,
                        self.platform.layout(),
                        layout.assets_dir().as_str(),
                        layout.output_dir(self.request.release()).as_str(),
                        self.request.release(),
                        self.request.formats(),
                        &snapshots,
                    );
                    match plan {
                        Err(error) => self.abort(error),
                        Ok(operations) => self.proceed(Phase::Placing, Action::Place(operations)),
                    }
                },
                _ => self.abort(PipelineError::UnexpectedEvent),
            },
            Event::Failed(reason) => self.abort(PipelineError::FilesystemError { detail: reason }),
            _ => self.abort(PipelineError::UnexpectedEvent),
        }
    }
}

/// Takes a run one step on: given what happened, says what to do next.
pub fn build_plugin(pipeline: Pipeline, event: Event) -> (step: (Pipeline, Action))
    ensures
        (step.0@, step.1@) == next(pipeline@, event@),
{
    match pipeline.phase() {
        Phase::Start => match event {
            Event::Start => pipeline.begin(),
            _ => pipeline.abort(PipelineError::UnexpectedEvent),
        },
        Phase::Cleaning => match event {
            Event::Done => pipeline.after_cleaning(),
            Event::Failed(_) => pipeline.after_cleaning(),
            _ => pipeline.abort(PipelineError::UnexpectedEvent),
        },
        Phase::Building(arch) => pipeline.build_architecture(arch, event),
        Phase::CheckingArtifact(arch) => pipeline.build_architecture(arch, event),
        Phase::Probing(arch) => pipeline.build_architecture(arch, event),
        Phase::InstallingTargets => pipeline.build_universal_macos_binary(event),
        Phase::CreatingUniversalDir => pipeline.build_universal_macos_binary(event),
        Phase::Fusing => pipeline.build_universal_macos_binary(event),
        Phase::QueryingFusion => pipeline.build_universal_macos_binary(event),
        Phase::CheckingFused => pipeline.build_universal_macos_binary(event),
        Phase::CreatingBuildDir => pipeline.package_plugin(event),
        Phase::CheckingTemplate => pipeline.package_plugin(event),
        Phase::CreatingAssetsDir => pipeline.package_plugin(event),
        Phase::CreatingOutputDir => pipeline.package_plugin(event),
        Phase::Configuring => pipeline.package_plugin(event),
        Phase::Packaging => pipeline.package_plugin(event),
        Phase::Snapshotting => pipeline.package_plugin(event),
        Phase::Placing => pipeline.package_plugin(event),
        Phase::Finished => pipeline.abort(PipelineError::UnexpectedEvent),
        Phase::Failed => pipeline.abort(PipelineError::UnexpectedEvent),
    }
}

/// Directories are removed only by the first step of a clean run, and then
/// they are the build directory, the directory the packaging system writes
/// into, and the output directory of the profile. So a clean run removes
/// them before anything is built, and any other run removes nothing at all.
pub proof fn lemma_removal_only_starts_clean_run(p: PipelineView, e: EventView)
    ensures
        next(p, e).1 is RemoveDirectories <==> p.phase == Phase::Start && e is Start
            && p.request.clean,
        next(p, e).1 is RemoveDirectories ==> next(p, e).1 == ActionView::RemoveDirectories(
            seq![
                build_directory(p.platform, p.root),
                assets_directory(p.platform, p.root),
                output_directory(p.platform, p.root, p.request.release),
            ],
        ) && next(p, e).0.phase == Phase::Cleaning,
{
}

/// Whether an action runs the toolchain on the crate.
pub open spec fn builds_crate(action: ActionView) -> bool {
    action matches ActionView::Run(run) && run.program == "cargo"@
}

/// The crate is never built by the step that starts a clean run, nor while
/// the targets are not installed: where they cannot be installed, the run is
/// given up as `ToolchainUnavailable` and nothing was built.
pub proof fn lemma_nothing_built_before_targets(p: PipelineView, e: EventView)
    ensures
        p.phase == Phase::Start && p.request.clean ==> !builds_crate(next(p, e).1),
        (p.phase == Phase::Start || p.phase == Phase::Cleaning) && wants_universal_binary(
            p.platform,
        ) ==> !builds_crate(next(p, e).1),
        p.phase == Phase::InstallingTargets && !(e matches EventView::Exited(output)
            && output.success) ==> next(p, e).0.phase == Phase::Failed && !builds_crate(
            next(p, e).1,
        ),
        p.phase == Phase::InstallingTargets && (e is Failed || (e matches EventView::Exited(output)
            && !output.success)) ==> next(p, e).1 matches ActionView::Abort(
            ErrorView::ToolchainUnavailable { .. },
        ),
{
    reveal_strlit("cargo");
    reveal_strlit("rustup");
    if (p.phase == Phase::Start || p.phase == Phase::Cleaning) && wants_universal_binary(
        p.platform,
    ) {
        if builds_crate(next(p, e).1) {
            assert(install_invocation().program.len() == 6);
            assert("cargo"@.len() == 5);
        }
    }
}

/// A run is given up exactly when the machine says so, it is over exactly
/// when the machine says so, and after either nothing more is asked for.
pub proof fn lemma_run_ends_once(p: PipelineView, e: EventView)
    ensures
        next(p, e).1 is Abort <==> next(p, e).0.phase == Phase::Failed,
        next(p, e).1 is Finish <==> next(p, e).0.phase == Phase::Finished,
        p.phase == Phase::Failed || p.phase == Phase::Finished ==> next(p, e).1
            == ActionView::Abort(ErrorView::UnexpectedEvent),
{
}

/// What a run was asked to do, and where, never changes.
pub proof fn lemma_request_is_kept(p: PipelineView, e: EventView)
    ensures
        next(p, e).0.platform == p.platform,
        next(p, e).0.root == p.root,
        next(p, e).0.request == p.request,
{
}

/// Whatever a run places, it places in the directory in which the bundles
/// of the profile end up, or below it.
pub proof fn lemma_bundles_land_in_output(p: PipelineView, e: EventView, k: int)
    requires
        next(p, e).1 matches ActionView::Place(operations) && 0 <= k < operations.len(),
    ensures
        next(p, e).1 matches ActionView::Place(operations) && output_directory(
            p.platform,
            p.root,
            p.request.release,
        ).is_prefix_of(written_path(operations[k])),
{
    assert(p.phase == Phase::Snapshotting);
    lemma_placement_stays_below(
        p.platform,
        layout_of(p.platform),
        assets_directory(p.platform, p.root),
        output_directory(p.platform, p.root, p.request.release),
        p.request.release,
        p.request.formats,
        e->Listed_0,
        k,
    );
}

/// An event that says a program ran and reported success.
pub open spec fn succeeded() -> EventView {
    EventView::Exited(OutputView { success: true, stdout: Seq::empty(), stderr: Seq::empty() })
}

/// A build for an architecture in which nothing goes wrong: once the
/// toolchain has succeeded, the static library is looked for, then the
/// candidate directories that the scan gives are probed, then the native
/// libraries that the probes show are added to those found so far, and the
/// run goes on to what follows the architecture.
pub proof fn lemma_architecture_is_built(
    p: PipelineView,
    arch: Architecture,
    output: OutputView,
    probes: Seq<ProbeView>,
)
    requires
        p.phase == Phase::Building(arch),
        output.success,
        scan(output.stdout, output.stderr, p.request.crate_name) matches Some(candidates)
            && resolution(p.platform, candidates, probes) is Ok,
    ensures
        ({
            let candidates = scan(output.stdout, output.stderr, p.request.crate_name)->Some_0;
            let files = resolution(p.platform, candidates, probes)->Ok_0;
            let built = next(p, EventView::Exited(output));
            let found = next(built.0, EventView::Exist(seq![true]));
            let resolved = next(found.0, EventView::Probed(probes));
            &&& built.1 == ActionView::CheckFiles(
                seq![
                    static_library_path(
                        p.platform,
                        p.root,
                        p.request.crate_name,
                        arch,
                        p.request.release,
                    ),
                ],
            )
            &&& found.1 == ActionView::ProbeDirectories(candidates)
            &&& resolved == after_architecture(
                PipelineView {
                    phase: Phase::Probing(arch),
                    stdout: Seq::empty(),
                    stderr: Seq::empty(),
                    candidates: Seq::empty(),
                    libraries: distinct(p.libraries + files),
                    ..p
                },
                arch,
            )
        }),
{
}

/// Packaging in which nothing goes wrong: the build directory is there, so
/// the template is looked for; it is complete, so the other directories are
/// made; then the packaging system configures, then it builds, then what it
/// wrote is listed and placed, and the run finishes in the output directory
/// of the profile.
pub proof fn lemma_packaging_finishes(p: PipelineView, snapshots: Seq<SnapshotView>)
    requires
        p.phase == Phase::CreatingBuildDir,
        placement(
            p.platform,
            layout_of(p.platform),
            assets_directory(p.platform, p.root),
            output_directory(p.platform, p.root, p.request.release),
            p.request.release,
            p.request.formats,
            snapshots,
        ) is Ok,
    ensures
        ({
            let build_dir = build_directory(p.platform, p.root);
            let assets = assets_directory(p.platform, p.root);
            let output = output_directory(p.platform, p.root, p.request.release);
            let made = next(p, EventView::Done);
            let complete = next(made.0, EventView::Exist(seq![true, true, true]));
            let assets_made = next(complete.0, EventView::Done);
            let output_made = next(assets_made.0, EventView::Done);
            let configured = next(output_made.0, succeeded());
            let packaged = next(configured.0, succeeded());
            let listed = next(packaged.0, EventView::Listed(snapshots));
            let placed = next(listed.0, EventView::Done);
            &&& made.1 == ActionView::CheckFiles(template_files(p.platform, p.root))
            &&& complete.1 == ActionView::CreateDirectory(assets)
            &&& assets_made.1 == ActionView::CreateDirectory(output)
            &&& output_made.1 == ActionView::Run(
                configure_invocation(
                    packaging_config(p),
                    template_directory(p.platform, p.root),
                    build_dir,
                ),
            )
            &&& configured.1 == ActionView::Run(package_invocation(build_dir, p.request.release))
            &&& packaged.1 == ActionView::ListTrees(
                placement_roots(
                    p.platform,
                    layout_of(p.platform),
                    assets,
                    p.request.formats,
                    p.request.release,
                ),
            )
            &&& listed.1 == ActionView::Place(
                placement(
                    p.platform,
                    layout_of(p.platform),
                    assets,
                    output,
                    p.request.release,
                    p.request.formats,
                    snapshots,
                )->Ok_0,
            )
            &&& placed.1 == ActionView::Finish(output)
            &&& placed.0 == (PipelineView { phase: Phase::Finished, ..p })
        }),
{
    let made = next(p, EventView::Done);
    assert(made.0.phase == Phase::CheckingTemplate);
    let complete = next(made.0, EventView::Exist(seq![true, true, true]));
    assert(complete.0.phase == Phase::CreatingAssetsDir);
    let assets_made = next(complete.0, EventView::Done);
    assert(assets_made.0.phase == Phase::CreatingOutputDir);
    let output_made = next(assets_made.0, EventView::Done);
    assert(output_made.0.phase == Phase::Configuring);
    let configured = next(output_made.0, succeeded());
    assert(configured.0.phase == Phase::Packaging);
    let packaged = next(configured.0, succeeded());
    assert(packaged.0.phase == Phase::Snapshotting);
    let listed = next(packaged.0, EventView::Listed(snapshots));
    assert(listed.0.phase == Phase::Placing);
}

/// On a platform that wants no universal binary, a run builds the crate
/// once, for the host, and goes from there to packaging: the first action
/// of a run that is not clean is that build, and when its libraries are
/// resolved the packaging begins.
pub proof fn lemma_host_is_built_once(
    platform: HostPlatform,
    root: Seq<char>,
    request: RequestView,
    output: OutputView,
    probes: Seq<ProbeView>,
)
    requires
        !wants_universal_binary(platform),
        !request.clean,
        output.success,
        scan(output.stdout, output.stderr, request.crate_name) matches Some(candidates)
            && resolution(platform, candidates, probes) is Ok,
    ensures
        ({
            let candidates = scan(output.stdout, output.stderr, request.crate_name)->Some_0;
            let files = resolution(platform, candidates, probes)->Ok_0;
            let started = next(initial(platform, root, request), EventView::Start);
            let built = next(started.0, EventView::Exited(output));
            let found = next(built.0, EventView::Exist(seq![true]));
            let resolved = next(found.0, EventView::Probed(probes));
            &&& started.1 == ActionView::Run(
                toolchain_invocation(root, request.crate_name, request.release, Architecture::Host),
            )
            &&& builds_crate(started.1)
            &&& !builds_crate(built.1)
            &&& !builds_crate(found.1)
            &&& resolved.1 == ActionView::CreateDirectory(build_directory(platform, root))
            &&& resolved.0.phase == Phase::CreatingBuildDir
            &&& resolved.0.libraries == distinct(files)
            &&& packaged_library(resolved.0) == static_library_path(
                platform,
                root,
                request.crate_name,
                Architecture::Host,
                request.release,
            )
        }),
{
    let started = next(initial(platform, root, request), EventView::Start);
    lemma_architecture_is_built(started.0, Architecture::Host, output, probes);
    let candidates = scan(output.stdout, output.stderr, request.crate_name)->Some_0;
    let files = resolution(platform, candidates, probes)->Ok_0;
    assert(Seq::<Seq<char>>::empty() + files =~= files);
}

/// Fusing in which nothing goes wrong: the archives of both architectures
/// are fused into the universal archive, the merge tool is then asked which
/// architectures that same archive holds, whatever it answers the archive is
/// looked for, and packaging begins.
pub proof fn lemma_archives_are_fused(p: PipelineView, report: OutputView)
    requires
        p.phase == Phase::CreatingUniversalDir,
    ensures
        ({
            let fused = universal_library_path(p.platform, p.root, p.request.crate_name);
            let made = next(p, EventView::Done);
            let merged = next(made.0, succeeded());
            let queried = next(merged.0, EventView::Exited(report));
            let found = next(queried.0, EventView::Exist(seq![true]));
            &&& made.1 == ActionView::Run(
                fuse_invocation(
                    static_library_path(
                        p.platform,
                        p.root,
                        p.request.crate_name,
                        Architecture::X86_64,
                        p.request.release,
                    ),
                    static_library_path(
                        p.platform,
                        p.root,
                        p.request.crate_name,
                        Architecture::Aarch64,
                        p.request.release,
                    ),
                    fused,
                ),
            )
            &&& merged.1 == ActionView::Run(query_invocation(fused))
            &&& queried.1 == ActionView::CheckFiles(seq![fused])
            &&& found == begin_packaging(PipelineView { phase: Phase::CheckingFused, ..p })
        }),
{
}

/// The native libraries that a run has found never hold a file twice.
pub proof fn lemma_libraries_stay_distinct(p: PipelineView, e: EventView)
    requires
        p.libraries.no_duplicates(),
    ensures
        next(p, e).0.libraries.no_duplicates(),
{
    if let Phase::Probing(_) = p.phase {
        if let EventView::Probed(probes) = e {
            if let Ok(files) = resolution(p.platform, p.candidates, probes) {
                lemma_distinct(p.libraries + files);
            }
        }
    }
}

} // verus!
