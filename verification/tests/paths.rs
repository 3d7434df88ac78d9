use plugin_packager::layout::{Architecture, BuildTarget, ProjectLayout};
use plugin_packager::paths::{join, join_all, project_root};
use plugin_packager::platform::{HostPlatform, OutputLayout, PluginFormat};

#[test]
fn join_puts_one_separator_between() {
    assert_eq!(join(HostPlatform::Other, "/r", "target"), "/r/target");
    assert_eq!(join(HostPlatform::Other, "/r/", "target"), "/r/target");
    assert_eq!(join(HostPlatform::Other, "", "target"), "target");
    assert_eq!(join(HostPlatform::Other, "/", "target"), "/target");
    assert_eq!(join(HostPlatform::Other, "/r", ""), "/r/");
    assert_eq!(join(HostPlatform::Other, "r\\", "x"), "r\\/x");
    assert_eq!(join(HostPlatform::MacOs, "/r", "a/b"), "/r/a/b");
    assert_eq!(join(HostPlatform::Windows, "C:\\r", "target"), "C:\\r\\target");
    assert_eq!(join(HostPlatform::Windows, "C:\\r\\", "target"), "C:\\r\\target");
    assert_eq!(join(HostPlatform::Windows, "C:/r/", "target"), "C:/r/target");
    assert_eq!(join(HostPlatform::Windows, "C:\\r", "target/cmake-build"), "C:\\r\\target/cmake-build");
}

#[test]
fn join_all_joins_in_turn() {
    let parts = vec!["a".to_string(), "b".to_string(), "c.txt".to_string()];
    assert_eq!(join_all(HostPlatform::Other, "/r", &parts), "/r/a/b/c.txt");
    assert_eq!(join_all(HostPlatform::Windows, "r", &parts), "r\\a\\b\\c.txt");
    assert_eq!(join_all(HostPlatform::Other, "/r", &vec![]), "/r");
}

#[test]
fn project_root_is_the_parent_of_the_manifest_directory() {
    let p = HostPlatform::Other;
    assert_eq!(project_root(p, "/home/u/proj/xtask"), Some("/home/u/proj".to_string()));
    assert_eq!(project_root(p, "/home/u/proj/xtask/"), Some("/home/u/proj".to_string()));
    assert_eq!(project_root(p, "/home/u/proj//xtask"), Some("/home/u/proj".to_string()));
    assert_eq!(project_root(p, "/xtask"), Some("/".to_string()));
    assert_eq!(project_root(p, "xtask"), Some("".to_string()));
    assert_eq!(project_root(p, "proj/xtask"), Some("proj".to_string()));
    assert_eq!(project_root(p, "/"), None);
    assert_eq!(project_root(p, "//"), None);
    assert_eq!(project_root(p, ""), None);
    assert_eq!(project_root(p, "C:\\proj\\xtask"), Some("".to_string()));
}

#[test]
fn project_root_on_windows() {
    let p = HostPlatform::Windows;
    assert_eq!(project_root(p, "C:\\proj\\xtask"), Some("C:\\proj".to_string()));
    assert_eq!(project_root(p, "C:/proj/xtask"), Some("C:/proj".to_string()));
    assert_eq!(project_root(p, "C:\\xtask"), Some("C:".to_string()));
    assert_eq!(project_root(p, "\\xtask"), Some("\\".to_string()));
}

#[test]
fn layout_names_the_static_library() {
    let unix = ProjectLayout { platform: HostPlatform::Other, root: "/r" };
    assert_eq!(unix.static_library_name("gain-example"), "libgain_example.a");
    assert_eq!(
        unix.static_library("gain-example", BuildTarget { architecture: Architecture::Host, release: false }),
        "/r/target/debug/libgain_example.a"
    );
    assert_eq!(
        unix.static_library("gain-example", BuildTarget { architecture: Architecture::Host, release: true }),
        "/r/target/release/libgain_example.a"
    );
    let windows = ProjectLayout { platform: HostPlatform::Windows, root: "C:\\r" };
    assert_eq!(windows.static_library_name("gain-example"), "gain_example.lib");
    assert_eq!(
        windows.static_library("gain-example", BuildTarget { architecture: Architecture::Host, release: true }),
        "C:\\r\\target\\release\\gain_example.lib"
    );
    let mac = ProjectLayout { platform: HostPlatform::MacOs, root: "/r" };
    assert_eq!(
        mac.static_library("a-b", BuildTarget { architecture: Architecture::X86_64, release: false }),
        "/r/target/x86_64-apple-darwin/debug/liba_b.a"
    );
    assert_eq!(
        mac.static_library("a-b", BuildTarget { architecture: Architecture::Aarch64, release: true }),
        "/r/target/aarch64-apple-darwin/release/liba_b.a"
    );
    assert_eq!(mac.universal_dir(), "/r/target/universal");
    assert_eq!(mac.universal_library("a-b"), "/r/target/universal/liba_b.a");
}

#[test]
fn layout_names_the_directories() {
    let unix = ProjectLayout { platform: HostPlatform::Other, root: "/r" };
    assert_eq!(unix.target_dir(), "/r/target");
    assert_eq!(unix.build_dir(), "/r/target/cmake-build");
    assert_eq!(unix.assets_dir(), "/r/target/cmake-assets");
    assert_eq!(unix.output_dir(false), "/r/target/debug/plugins");
    assert_eq!(unix.output_dir(true), "/r/target/release/plugins");
    assert_eq!(unix.template_dir(), "/r/xtask/cmake");
    assert_eq!(
        unix.template_files(),
        vec![
            "/r/xtask/cmake/CMakeLists.txt".to_string(),
            "/r/xtask/cmake/clap_entry.cpp".to_string(),
            "/r/xtask/cmake/clap_entry.h".to_string(),
        ]
    );
    assert_eq!(
        unix.clean_dirs(false),
        vec![
            "/r/target/cmake-build".to_string(),
            "/r/target/cmake-assets".to_string(),
            "/r/target/debug/plugins".to_string(),
        ]
    );
    assert_eq!(
        unix.clean_dirs(true),
        vec![
            "/r/target/cmake-build".to_string(),
            "/r/target/cmake-assets".to_string(),
            "/r/target/release/plugins".to_string(),
        ]
    );
    let windows = ProjectLayout { platform: HostPlatform::Windows, root: "C:\\r" };
    assert_eq!(windows.output_dir(false), "C:\\r\\target\\debug\\plugins");
    assert_eq!(windows.build_dir(), "C:\\r\\target/cmake-build");
}

#[test]
fn platform_table() {
    assert_eq!(HostPlatform::Windows.layout(), OutputLayout::NestedByFormatAndProfile);
    assert_eq!(HostPlatform::MacOs.layout(), OutputLayout::Flat);
    assert_eq!(HostPlatform::Other.layout(), OutputLayout::Flat);
    assert!(HostPlatform::MacOs.needs_universal_binary());
    assert!(!HostPlatform::Windows.needs_universal_binary());
    assert!(!HostPlatform::Other.needs_universal_binary());
    assert_eq!(HostPlatform::Windows.separator(), '\\');
    assert_eq!(HostPlatform::Other.separator(), '/');
    assert!(HostPlatform::Windows.separates('/'));
    assert!(HostPlatform::Windows.separates('\\'));
    assert!(!HostPlatform::Other.separates('\\'));
    assert_eq!(PluginFormat::Clap.name(), "CLAP");
    assert_eq!(PluginFormat::Vst3.name(), "VST3");
    assert_eq!(PluginFormat::Auv2.name(), "AUV2");
    assert_eq!(Architecture::Host.triple(), None);
    assert_eq!(Architecture::X86_64.triple(), Some("x86_64-apple-darwin"));
    assert_eq!(Architecture::Aarch64.triple(), Some("aarch64-apple-darwin"));
}
