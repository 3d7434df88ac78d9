use plugin_packager::error::PipelineError;
use plugin_packager::layout::{Architecture, StaticLibraryArtifact};
use plugin_packager::packaging::Invocation;
use plugin_packager::pipeline::{
    build_plugin, Action, Event, Phase, Pipeline, ToolchainOutput,
};
use plugin_packager::placer::{FileOp, TreeEntry, TreeSnapshot};
use plugin_packager::platform::{HostPlatform, PluginFormat};
use plugin_packager::request::BuildRequest;
use plugin_packager::resolver::{DirectoryEntry, DirectoryProbe};

fn strings(items: &[&str]) -> Vec<String> {
    items.iter().map(|s| s.to_string()).collect()
}

fn request(release: bool, formats: Vec<PluginFormat>, clean: bool) -> BuildRequest {
    BuildRequest::new(
        "gain-example".to_string(),
        release,
        "org.free-audio.rust-gain-example".to_string(),
        formats,
        clean,
        false,
    )
}

fn start(platform: HostPlatform, request: BuildRequest) -> (Pipeline, Action) {
    build_plugin(Pipeline::new(platform, "/proj".to_string(), request), Event::Start)
}

fn exited(success: bool, stdout: &[u8], stderr: &[u8]) -> Event {
    Event::Exited(ToolchainOutput { success, stdout: stdout.to_vec(), stderr: stderr.to_vec() })
}

fn cargo(args: &[&str]) -> Action {
    Action::Run(Invocation {
        program: "cargo".to_string(),
        args: strings(args),
        env: vec![("RUSTFLAGS".to_string(), "-Wl,--verbose".to_string())],
        dir: Some("/proj".to_string()),
        captured: true,
    })
}

fn plain(program: &str, args: &[&str], captured: bool) -> Action {
    Action::Run(Invocation {
        program: program.to_string(),
        args: strings(args),
        env: vec![],
        dir: None,
        captured,
    })
}

fn library(name: &str) -> DirectoryEntry {
    DirectoryEntry { name: name.to_string(), is_file: true }
}

fn listed(canonical: &str, entries: Vec<DirectoryEntry>) -> DirectoryProbe {
    DirectoryProbe::Entries { canonical: canonical.to_string(), entries }
}

fn abort(error: PipelineError) -> Action {
    Action::Abort(error)
}

/// Takes a run on the host up to the point where packaging begins.
fn built_for_host(release: bool, formats: Vec<PluginFormat>) -> Pipeline {
    let (p, _) = start(HostPlatform::Other, request(release, formats, false));
    let (p, _) = build_plugin(p, exited(true, b"", b"--crate-name gain_example -L native=/n\n"));
    let (p, _) = build_plugin(p, Event::Exist(vec![true]));
    let (p, action) =
        build_plugin(p, Event::Probed(vec![listed("/n", vec![library("libn.a")])]));
    assert_eq!(action, Action::CreateDirectory("/proj/target/cmake-build".to_string()));
    p
}

/// Takes a run on the host up to the point where the packaging system is
/// configured.
fn configuring_on_host() -> Pipeline {
    let p = built_for_host(false, vec![PluginFormat::Clap]);
    let (p, _) = build_plugin(p, Event::Done);
    let (p, _) = build_plugin(p, Event::Exist(vec![true, true, true]));
    let (p, _) = build_plugin(p, Event::Done);
    let (p, _) = build_plugin(p, Event::Done);
    assert_eq!(p.phase(), Phase::Configuring);
    p
}

#[test]
fn single_architecture_run_from_start_to_finish() {
    let (p, action) = start(HostPlatform::Other, request(false, vec![PluginFormat::Clap], false));
    assert_eq!(action, cargo(&["build", "--verbose", "-p", "gain-example"]));
    assert_eq!(p.phase(), Phase::Building(Architecture::Host));

    let stderr = b"   Compiling gain-example v0.1.0 (/proj/plugins/gain-example)\n     Running `rustc --crate-name gain_example --edition=2021 plugins/gain-example/src/lib.rs --crate-type staticlib -L dependency=/proj/target/debug/deps -L native=/proj/target/debug/build/sys-1/out`\n    Finished dev profile\n";
    let (p, action) = build_plugin(p, exited(true, b"", stderr));
    assert_eq!(action, Action::CheckFiles(strings(&["/proj/target/debug/libgain_example.a"])));
    assert_eq!(p.phase(), Phase::CheckingArtifact(Architecture::Host));

    let (p, action) = build_plugin(p, Event::Exist(vec![true]));
    assert_eq!(action, Action::ProbeDirectories(strings(&["/proj/target/debug/build/sys-1/out"])));
    assert_eq!(p.phase(), Phase::Probing(Architecture::Host));

    let probes = vec![listed(
        "/proj/target/debug/build/sys-1/out",
        vec![
            library("libsys.a"),
            library("build.log"),
            DirectoryEntry { name: "include.a".to_string(), is_file: false },
        ],
    )];
    let (p, action) = build_plugin(p, Event::Probed(probes));
    assert_eq!(action, Action::CreateDirectory("/proj/target/cmake-build".to_string()));
    assert_eq!(p.phase(), Phase::CreatingBuildDir);
    assert_eq!(p.native_libraries(), &strings(&["/proj/target/debug/build/sys-1/out/libsys.a"]));
    assert_eq!(
        p.artifact(),
        StaticLibraryArtifact {
            path: "/proj/target/debug/libgain_example.a".to_string(),
            architectures: vec![Architecture::Host],
        }
    );

    let (p, action) = build_plugin(p, Event::Done);
    assert_eq!(
        action,
        Action::CheckFiles(strings(&[
            "/proj/xtask/cmake/CMakeLists.txt",
            "/proj/xtask/cmake/clap_entry.cpp",
            "/proj/xtask/cmake/clap_entry.h",
        ]))
    );

    let (p, action) = build_plugin(p, Event::Exist(vec![true, true, true]));
    assert_eq!(action, Action::CreateDirectory("/proj/target/cmake-assets".to_string()));

    let (p, action) = build_plugin(p, Event::Done);
    assert_eq!(action, Action::CreateDirectory("/proj/target/debug/plugins".to_string()));

    let (p, action) = build_plugin(p, Event::Done);
    assert_eq!(
        action,
        plain(
            "cmake",
            &[
                "-S",
                "/proj/xtask/cmake",
                "-B",
                "/proj/target/cmake-build",
                "-DPROJECT_NAME=gain-example",
                "-DSTATIC_LIB_FILE=/proj/target/debug/libgain_example.a",
                "-DBUNDLE_ID=org.free-audio.rust-gain-example",
                "-DPLUGIN_OUTPUT_DIR=/proj/target/cmake-assets",
                "-DINSTALL_PLUGINS_AFTER_BUILD=OFF",
                "-DPLUGIN_FORMATS=CLAP",
                "-DNATIVE_LIBRARIES=/proj/target/debug/build/sys-1/out/libsys.a",
            ],
            false
        )
    );
    assert_eq!(p.phase(), Phase::Configuring);

    let (p, action) = build_plugin(p, exited(true, b"", b""));
    assert_eq!(
        action,
        plain("cmake", &["--build", "/proj/target/cmake-build", "--config", "Debug"], false)
    );
    assert_eq!(p.phase(), Phase::Packaging);

    let (p, action) = build_plugin(p, exited(true, b"", b""));
    assert_eq!(action, Action::ListTrees(strings(&["/proj/target/cmake-assets"])));
    assert_eq!(p.phase(), Phase::Snapshotting);

    let listing = vec![TreeSnapshot::Entries(vec![
        TreeEntry { path: strings(&["gain-example.clap"]), is_dir: false },
    ])];
    let (p, action) = build_plugin(p, Event::Listed(listing));
    assert_eq!(
        action,
        Action::Place(vec![
            FileOp::CreateDirectory("/proj/target/debug/plugins".to_string()),
            FileOp::CopyFile {
                from: "/proj/target/cmake-assets/gain-example.clap".to_string(),
                to: "/proj/target/debug/plugins/gain-example.clap".to_string(),
            },
        ])
    );
    assert_eq!(p.phase(), Phase::Placing);

    let (p, action) = build_plugin(p, Event::Done);
    assert_eq!(action, Action::Finish("/proj/target/debug/plugins".to_string()));
    assert_eq!(p.phase(), Phase::Finished);

    let (p, action) = build_plugin(p, Event::Done);
    assert_eq!(action, abort(PipelineError::UnexpectedEvent));
    assert_eq!(p.phase(), Phase::Failed);
}

#[test]
fn missing_targets_abort_before_any_build() {
    let (p, action) = start(HostPlatform::MacOs, request(false, vec![PluginFormat::Clap], false));
    assert_eq!(
        action,
        plain("rustup", &["target", "add", "x86_64-apple-darwin", "aarch64-apple-darwin"], false)
    );
    assert_eq!(p.phase(), Phase::InstallingTargets);
    let (p, action) = build_plugin(p, exited(false, b"", b""));
    assert_eq!(action, abort(PipelineError::ToolchainUnavailable { detail: String::new() }));
    assert_eq!(p.phase(), Phase::Failed);
}

#[test]
fn targets_that_cannot_be_asked_for_abort_too() {
    let (p, _) = start(HostPlatform::MacOs, request(false, vec![PluginFormat::Clap], false));
    let (p, action) = build_plugin(p, Event::Failed("rustup: not found".to_string()));
    assert_eq!(
        action,
        abort(PipelineError::ToolchainUnavailable { detail: "rustup: not found".to_string() })
    );
    assert_eq!(p.phase(), Phase::Failed);
}

#[test]
fn clean_run_removes_directories_first() {
    let (p, action) = start(HostPlatform::Other, request(false, vec![PluginFormat::Clap], true));
    assert_eq!(
        action,
        Action::RemoveDirectories(strings(&[
            "/proj/target/cmake-build",
            "/proj/target/cmake-assets",
            "/proj/target/debug/plugins",
        ]))
    );
    assert_eq!(p.phase(), Phase::Cleaning);
    let (_, action) = start(HostPlatform::Windows, request(true, vec![PluginFormat::Clap], true));
    assert_eq!(
        action,
        Action::RemoveDirectories(strings(&[
            "/proj\\target/cmake-build",
            "/proj\\target/cmake-assets",
            "/proj\\target\\release\\plugins",
        ]))
    );
    let (p, action) = build_plugin(p, Event::Done);
    assert_eq!(action, cargo(&["build", "--verbose", "-p", "gain-example"]));
    assert_eq!(p.phase(), Phase::Building(Architecture::Host));
}

#[test]
fn clean_run_goes_on_when_removal_fails() {
    let (p, _) = start(HostPlatform::MacOs, request(true, vec![PluginFormat::Clap], true));
    assert_eq!(p.phase(), Phase::Cleaning);
    let (p, action) = build_plugin(p, Event::Failed("busy".to_string()));
    assert_eq!(
        action,
        plain("rustup", &["target", "add", "x86_64-apple-darwin", "aarch64-apple-darwin"], false)
    );
    assert_eq!(p.phase(), Phase::InstallingTargets);
}

#[test]
fn other_runs_remove_nothing() {
    let (mut p, mut action) =
        start(HostPlatform::Other, request(false, vec![PluginFormat::Clap], false));
    let events = vec![
        exited(true, b"", b""),
        Event::Exist(vec![true]),
        Event::Probed(vec![]),
        Event::Done,
        Event::Exist(vec![true, true, true]),
        Event::Done,
        Event::Done,
        exited(true, b"", b""),
        exited(true, b"", b""),
        Event::Listed(vec![TreeSnapshot::Entries(vec![])]),
        Event::Done,
    ];
    for event in events {
        assert!(!matches!(action, Action::RemoveDirectories(_)));
        assert!(!matches!(action, Action::Abort(_)));
        let step = build_plugin(p, event);
        p = step.0;
        action = step.1;
    }
    assert_eq!(action, Action::Finish("/proj/target/debug/plugins".to_string()));
}

#[test]
fn universal_run_builds_both_architectures_and_fuses() {
    let (p, _) = start(HostPlatform::MacOs, request(true, vec![PluginFormat::Auv2], false));
    let (p, action) = build_plugin(p, exited(true, b"", b""));
    assert_eq!(
        action,
        cargo(&[
            "build",
            "--verbose",
            "--release",
            "--target",
            "x86_64-apple-darwin",
            "-p",
            "gain-example"
        ])
    );
    assert_eq!(p.phase(), Phase::Building(Architecture::X86_64));

    let (p, action) =
        build_plugin(p, exited(true, b"", b"--crate-name gain_example -L native=/x -L native=/s\n"));
    assert_eq!(
        action,
        Action::CheckFiles(strings(&[
            "/proj/target/x86_64-apple-darwin/release/libgain_example.a"
        ]))
    );
    let (p, action) = build_plugin(p, Event::Exist(vec![true]));
    assert_eq!(action, Action::ProbeDirectories(strings(&["/x", "/s"])));
    let (p, action) = build_plugin(
        p,
        Event::Probed(vec![
            listed("/x", vec![library("libx.a")]),
            listed("/s", vec![library("libshared.dylib")]),
        ]),
    );
    assert_eq!(
        action,
        cargo(&[
            "build",
            "--verbose",
            "--release",
            "--target",
            "aarch64-apple-darwin",
            "-p",
            "gain-example"
        ])
    );
    assert_eq!(p.phase(), Phase::Building(Architecture::Aarch64));
    assert_eq!(p.native_libraries(), &strings(&["/x/libx.a", "/s/libshared.dylib"]));

    let (p, action) =
        build_plugin(p, exited(true, b"", b"--crate-name gain_example -L native=/s -L native=/a\n"));
    assert_eq!(
        action,
        Action::CheckFiles(strings(&[
            "/proj/target/aarch64-apple-darwin/release/libgain_example.a"
        ]))
    );
    let (p, action) = build_plugin(p, Event::Exist(vec![true]));
    assert_eq!(action, Action::ProbeDirectories(strings(&["/s", "/a"])));
    let (p, action) = build_plugin(
        p,
        Event::Probed(vec![
            listed("/s", vec![library("libshared.dylib")]),
            listed("/a", vec![library("liba.a")]),
        ]),
    );
    assert_eq!(action, Action::CreateDirectory("/proj/target/universal".to_string()));
    assert_eq!(p.phase(), Phase::CreatingUniversalDir);
    assert_eq!(
        p.native_libraries(),
        &strings(&["/x/libx.a", "/s/libshared.dylib", "/a/liba.a"])
    );

    let (p, action) = build_plugin(p, Event::Done);
    assert_eq!(
        action,
        plain(
            "lipo",
            &[
                "-create",
                "/proj/target/x86_64-apple-darwin/release/libgain_example.a",
                "/proj/target/aarch64-apple-darwin/release/libgain_example.a",
                "-output",
                "/proj/target/universal/libgain_example.a",
            ],
            false
        )
    );
    assert_eq!(p.phase(), Phase::Fusing);

    let (p, action) = build_plugin(p, exited(true, b"", b""));
    assert_eq!(
        action,
        plain("lipo", &["-info", "/proj/target/universal/libgain_example.a"], true)
    );
    assert_eq!(p.phase(), Phase::QueryingFusion);

    let (p, action) = build_plugin(
        p,
        exited(false, b"Architectures in the fat file: x86_64 arm64\n", b""),
    );
    assert_eq!(
        action,
        Action::CheckFiles(strings(&["/proj/target/universal/libgain_example.a"]))
    );
    assert_eq!(p.phase(), Phase::CheckingFused);

    let (p, action) = build_plugin(p, Event::Exist(vec![true]));
    assert_eq!(action, Action::CreateDirectory("/proj/target/cmake-build".to_string()));
    assert_eq!(
        p.artifact(),
        StaticLibraryArtifact {
            path: "/proj/target/universal/libgain_example.a".to_string(),
            architectures: vec![Architecture::X86_64, Architecture::Aarch64],
        }
    );

    let (p, _) = build_plugin(p, Event::Done);
    let (p, _) = build_plugin(p, Event::Exist(vec![true, true, true]));
    let (p, action) = build_plugin(p, Event::Done);
    assert_eq!(action, Action::CreateDirectory("/proj/target/release/plugins".to_string()));
    let (p, action) = build_plugin(p, Event::Done);
    assert_eq!(
        action,
        plain(
            "cmake",
            &[
                "-S",
                "/proj/xtask/cmake",
                "-B",
                "/proj/target/cmake-build",
                "-DPROJECT_NAME=gain-example",
                "-DSTATIC_LIB_FILE=/proj/target/universal/libgain_example.a",
                "-DBUNDLE_ID=org.free-audio.rust-gain-example",
                "-DPLUGIN_OUTPUT_DIR=/proj/target/cmake-assets",
                "-DINSTALL_PLUGINS_AFTER_BUILD=OFF",
                "-DPLUGIN_FORMATS=AUV2",
                "-DNATIVE_LIBRARIES=/x/libx.a;/s/libshared.dylib;/a/liba.a",
            ],
            false
        )
    );
    let (p, action) = build_plugin(p, exited(true, b"", b""));
    assert_eq!(
        action,
        plain("cmake", &["--build", "/proj/target/cmake-build", "--config", "Release"], false)
    );
    let (_, action) = build_plugin(p, exited(true, b"", b""));
    assert_eq!(action, Action::ListTrees(strings(&["/proj/target/cmake-assets"])));
}

#[test]
fn failed_build_carries_the_diagnostics() {
    let (p, _) = start(HostPlatform::Other, request(false, vec![PluginFormat::Clap], false));
    let (p, action) = build_plugin(p, exited(false, b"out", b"error: no such crate\n"));
    let error =
        PipelineError::BuildFailure { target: None, diagnostics: b"error: no such crate\n".to_vec() };
    assert_eq!(action, abort(error.clone()));
    assert_eq!(p.phase(), Phase::Failed);
    assert_eq!(error.message(), "Failed to build static library: error: no such crate\n");
}

#[test]
fn failed_build_for_a_target_names_it() {
    let (p, _) = start(HostPlatform::MacOs, request(false, vec![PluginFormat::Clap], false));
    let (p, _) = build_plugin(p, exited(true, b"", b""));
    let (_, action) = build_plugin(p, exited(false, b"", b"boom"));
    let error = PipelineError::BuildFailure {
        target: Some("x86_64-apple-darwin".to_string()),
        diagnostics: b"boom".to_vec(),
    };
    assert_eq!(action, abort(error.clone()));
    assert_eq!(error.message(), "Failed to build for x86_64-apple-darwin: boom");
}

#[test]
fn missing_static_library_aborts() {
    let (p, _) = start(HostPlatform::Windows, request(true, vec![PluginFormat::Clap], false));
    let (p, action) = build_plugin(p, exited(true, b"", b""));
    assert_eq!(
        action,
        Action::CheckFiles(strings(&["/proj\\target\\release\\gain_example.lib"]))
    );
    let (p, action) = build_plugin(p, Event::Exist(vec![false]));
    let error = PipelineError::ArtifactNotFound {
        path: "/proj\\target\\release\\gain_example.lib".to_string(),
    };
    assert_eq!(action, abort(error.clone()));
    assert_eq!(p.phase(), Phase::Failed);
    assert_eq!(
        error.message(),
        "Static library file not found: /proj\\target\\release\\gain_example.lib"
    );
}

#[test]
fn undecodable_diagnostics_abort_after_the_library_was_found() {
    let (p, _) = start(HostPlatform::Other, request(false, vec![PluginFormat::Clap], false));
    let (p, action) = build_plugin(p, exited(true, &[0xff, 0xfe], b""));
    assert!(matches!(action, Action::CheckFiles(_)));
    let (p, action) = build_plugin(p, Event::Exist(vec![true]));
    assert_eq!(action, abort(PipelineError::UndecodableDiagnostics));
    assert_eq!(p.phase(), Phase::Failed);
}

#[test]
fn unreadable_search_directory_aborts() {
    let (p, _) = start(HostPlatform::Other, request(false, vec![PluginFormat::Clap], false));
    let (p, _) = build_plugin(p, exited(true, b"", b"--crate-name gain_example -L native=/n\n"));
    let (p, _) = build_plugin(p, Event::Exist(vec![true]));
    let (p, action) =
        build_plugin(p, Event::Probed(vec![DirectoryProbe::Unreadable("denied".to_string())]));
    assert_eq!(action, abort(PipelineError::FilesystemError { detail: "denied".to_string() }));
    assert_eq!(p.phase(), Phase::Failed);
}

#[test]
fn probes_must_answer_the_candidates() {
    let (p, _) = start(HostPlatform::Other, request(false, vec![PluginFormat::Clap], false));
    let (p, _) = build_plugin(p, exited(true, b"", b"--crate-name gain_example -L native=/n\n"));
    let (p, _) = build_plugin(p, Event::Exist(vec![true]));
    let (_, action) = build_plugin(p, Event::Probed(vec![]));
    assert_eq!(action, abort(PipelineError::UnexpectedEvent));
}

#[test]
fn missing_search_directories_are_dropped() {
    let (p, _) = start(HostPlatform::Other, request(false, vec![PluginFormat::Clap], false));
    let (p, _) = build_plugin(
        p,
        exited(true, b"", b"--crate-name gain_example -L native=/gone -L native=/file\n"),
    );
    let (p, action) = build_plugin(p, Event::Exist(vec![true]));
    assert_eq!(action, Action::ProbeDirectories(strings(&["/gone", "/file"])));
    let (p, action) = build_plugin(
        p,
        Event::Probed(vec![DirectoryProbe::Missing, DirectoryProbe::NotADirectory]),
    );
    assert_eq!(action, Action::CreateDirectory("/proj/target/cmake-build".to_string()));
    assert_eq!(p.native_libraries(), &strings(&[]));
}

#[test]
fn failed_fusion_aborts() {
    let (p, _) = start(HostPlatform::MacOs, request(false, vec![PluginFormat::Clap], false));
    let (p, _) = build_plugin(p, exited(true, b"", b""));
    let (p, _) = build_plugin(p, exited(true, b"", b""));
    let (p, _) = build_plugin(p, Event::Exist(vec![true]));
    let (p, _) = build_plugin(p, Event::Probed(vec![]));
    let (p, _) = build_plugin(p, exited(true, b"", b""));
    let (p, _) = build_plugin(p, Event::Exist(vec![true]));
    let (p, _) = build_plugin(p, Event::Probed(vec![]));
    let (p, _) = build_plugin(p, Event::Done);
    assert_eq!(p.phase(), Phase::Fusing);
    let (p, action) = build_plugin(p, exited(false, b"", b""));
    assert_eq!(action, abort(PipelineError::FusionFailure));
    assert_eq!(p.phase(), Phase::Failed);
    assert_eq!(
        PipelineError::FusionFailure.message(),
        "Failed to create universal binary with lipo"
    );
}

#[test]
fn missing_template_aborts_before_the_packaging_system_runs() {
    for flags in [
        vec![false, true, true],
        vec![true, false, true],
        vec![true, true, false],
        vec![false, false, false],
    ] {
        let p = built_for_host(false, vec![PluginFormat::Clap]);
        let (p, _) = build_plugin(p, Event::Done);
        assert_eq!(p.phase(), Phase::CheckingTemplate);
        let (p, action) = build_plugin(p, Event::Exist(flags));
        assert_eq!(action, abort(PipelineError::MissingTemplate));
        assert_eq!(p.phase(), Phase::Failed);
    }
    assert_eq!(
        PipelineError::MissingTemplate.message(),
        "Required CMake files not found in xtask/cmake directory"
    );
}

#[test]
fn template_check_wants_three_answers() {
    let p = built_for_host(false, vec![PluginFormat::Clap]);
    let (p, _) = build_plugin(p, Event::Done);
    let (_, action) = build_plugin(p, Event::Exist(vec![true, true]));
    assert_eq!(action, abort(PipelineError::UnexpectedEvent));
}

#[test]
fn failed_configure_aborts() {
    let p = configuring_on_host();
    let (p, action) = build_plugin(p, exited(false, b"", b""));
    assert_eq!(action, abort(PipelineError::PackagingConfigureFailure));
    assert_eq!(p.phase(), Phase::Failed);
    assert_eq!(PipelineError::PackagingConfigureFailure.message(), "CMake configuration failed");
}

#[test]
fn failed_packaging_build_aborts() {
    let p = configuring_on_host();
    let (p, _) = build_plugin(p, exited(true, b"", b""));
    let (p, action) = build_plugin(p, exited(false, b"", b""));
    assert_eq!(action, abort(PipelineError::PackagingBuildFailure));
    assert_eq!(p.phase(), Phase::Failed);
    assert_eq!(PipelineError::PackagingBuildFailure.message(), "Plugin build failed");
}

#[test]
fn failed_directory_creation_aborts() {
    let p = built_for_host(false, vec![PluginFormat::Clap]);
    let (p, action) = build_plugin(p, Event::Failed("read-only file system".to_string()));
    let error = PipelineError::FilesystemError { detail: "read-only file system".to_string() };
    assert_eq!(action, abort(error.clone()));
    assert_eq!(p.phase(), Phase::Failed);
    assert_eq!(error.message(), "read-only file system");
}

#[test]
fn failed_copy_aborts() {
    let p = configuring_on_host();
    let (p, _) = build_plugin(p, exited(true, b"", b""));
    let (p, _) = build_plugin(p, exited(true, b"", b""));
    let (p, _) = build_plugin(p, Event::Listed(vec![TreeSnapshot::Entries(vec![])]));
    assert_eq!(p.phase(), Phase::Placing);
    let (p, action) = build_plugin(p, Event::Failed("disk full".to_string()));
    assert_eq!(action, abort(PipelineError::FilesystemError { detail: "disk full".to_string() }));
    assert_eq!(p.phase(), Phase::Failed);
}

#[test]
fn nested_platform_lists_each_format() {
    let (p, _) = start(
        HostPlatform::Windows,
        request(false, vec![PluginFormat::Clap, PluginFormat::Vst3], false),
    );
    let (p, _) = build_plugin(p, exited(true, b"", b""));
    let (p, _) = build_plugin(p, Event::Exist(vec![true]));
    let (p, _) = build_plugin(p, Event::Probed(vec![]));
    let (p, _) = build_plugin(p, Event::Done);
    let (p, _) = build_plugin(p, Event::Exist(vec![true, true, true]));
    let (p, _) = build_plugin(p, Event::Done);
    let (p, _) = build_plugin(p, Event::Done);
    let (p, _) = build_plugin(p, exited(true, b"", b""));
    let (p, action) = build_plugin(p, exited(true, b"", b""));
    assert_eq!(
        action,
        Action::ListTrees(strings(&[
            "/proj\\target/cmake-assets\\CLAP\\debug",
            "/proj\\target/cmake-assets\\VST3\\debug",
        ]))
    );
    let (_, action) = build_plugin(
        p,
        Event::Listed(vec![
            TreeSnapshot::Entries(vec![TreeEntry {
                path: strings(&["plugin.clap"]),
                is_dir: false,
            }]),
            TreeSnapshot::Missing,
        ]),
    );
    assert_eq!(
        action,
        Action::Place(vec![
            FileOp::CreateDirectory("/proj\\target\\debug\\plugins".to_string()),
            FileOp::CopyFile {
                from: "/proj\\target/cmake-assets\\CLAP\\debug\\plugin.clap".to_string(),
                to: "/proj\\target\\debug\\plugins\\plugin.clap".to_string(),
            },
        ])
    );
}

#[test]
fn events_that_do_not_answer_abort() {
    let (_, action) = build_plugin(
        Pipeline::new(
            HostPlatform::Other,
            "/proj".to_string(),
            request(false, vec![PluginFormat::Clap], false),
        ),
        Event::Done,
    );
    assert_eq!(action, abort(PipelineError::UnexpectedEvent));
    let (p, _) = start(HostPlatform::Other, request(false, vec![PluginFormat::Clap], false));
    let (p, action) = build_plugin(p, Event::Exist(vec![true]));
    assert_eq!(action, abort(PipelineError::UnexpectedEvent));
    assert_eq!(p.phase(), Phase::Failed);
    let (p, action) = build_plugin(p, Event::Start);
    assert_eq!(action, abort(PipelineError::UnexpectedEvent));
    assert_eq!(p.phase(), Phase::Failed);
    assert_eq!(PipelineError::UnexpectedEvent.message(), "unexpected event");
}

#[test]
fn a_tool_that_cannot_be_started_aborts() {
    let (p, _) = start(HostPlatform::Other, request(false, vec![PluginFormat::Clap], false));
    let (_, action) = build_plugin(p, Event::Failed("cargo: not found".to_string()));
    assert_eq!(
        action,
        abort(PipelineError::FilesystemError { detail: "cargo: not found".to_string() })
    );
}

#[test]
fn pipeline_keeps_its_request() {
    let (p, _) = start(HostPlatform::Other, request(true, vec![PluginFormat::Vst3], false));
    assert_eq!(p.request().crate_name(), "gain-example");
    assert!(p.request().release());
    assert_eq!(p.request().formats(), &vec![PluginFormat::Vst3]);
    let config = p.packaging_config();
    assert_eq!(config.project_name(), "gain-example");
    assert_eq!(config.static_library(), "/proj/target/release/libgain_example.a");
    assert_eq!(config.bundle_id(), "org.free-audio.rust-gain-example");
    assert_eq!(config.output_dir(), "/proj/target/cmake-assets");
    assert_eq!(config.formats(), &vec![PluginFormat::Vst3]);
    assert!(config.native_libraries().is_empty());
    assert!(!config.install());
}
