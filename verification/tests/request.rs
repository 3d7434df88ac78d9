use plugin_packager::platform::PluginFormat;
use plugin_packager::request::{has_format, parse_formats, BuildRequest};

#[test]
fn request_keeps_what_it_was_given() {
    let request = BuildRequest::new(
        "gain-example".to_string(),
        true,
        "org.example.gain".to_string(),
        vec![PluginFormat::Vst3, PluginFormat::Clap],
        false,
        true,
    );
    assert_eq!(request.crate_name(), "gain-example");
    assert!(request.release());
    assert_eq!(request.bundle_id(), "org.example.gain");
    assert_eq!(request.formats(), &vec![PluginFormat::Vst3, PluginFormat::Clap]);
    assert!(!request.clean());
    assert!(request.install());
}

#[test]
fn request_counts_a_format_once() {
    let request = BuildRequest::new(
        "x".to_string(),
        false,
        "id".to_string(),
        vec![
            PluginFormat::Clap,
            PluginFormat::Auv2,
            PluginFormat::Clap,
            PluginFormat::Vst3,
            PluginFormat::Auv2,
        ],
        false,
        false,
    );
    assert_eq!(
        request.formats(),
        &vec![PluginFormat::Clap, PluginFormat::Auv2, PluginFormat::Vst3]
    );
}

#[test]
fn request_defaults() {
    assert_eq!(BuildRequest::default_bundle_id(), "org.free-audio.rust-gain-example");
    assert_eq!(
        BuildRequest::default_formats(),
        vec![PluginFormat::Clap, PluginFormat::Vst3, PluginFormat::Auv2]
    );
    assert_eq!(parse_formats("CLAP,VST3,AUV2"), Some(BuildRequest::default_formats()));
}

#[test]
fn formats_are_read_from_a_list() {
    assert_eq!(parse_formats("CLAP"), Some(vec![PluginFormat::Clap]));
    assert_eq!(parse_formats("VST3,CLAP"), Some(vec![PluginFormat::Vst3, PluginFormat::Clap]));
    assert_eq!(
        parse_formats("AUV2,AUV2,CLAP"),
        Some(vec![PluginFormat::Auv2, PluginFormat::Auv2, PluginFormat::Clap])
    );
}

#[test]
fn formats_with_a_wrong_field_are_refused() {
    assert_eq!(parse_formats(""), None);
    assert_eq!(parse_formats("clap"), None);
    assert_eq!(parse_formats("CLAP,"), None);
    assert_eq!(parse_formats(",CLAP"), None);
    assert_eq!(parse_formats("CLAP,,VST3"), None);
    assert_eq!(parse_formats("CLAP, VST3"), None);
    assert_eq!(parse_formats("CLAP;VST3"), None);
    assert_eq!(parse_formats("LV2,CLAP"), None);
    assert_eq!(parse_formats("CLAP,VST3X"), None);
}

#[test]
fn has_format_looks_through_the_list() {
    let formats = vec![PluginFormat::Clap, PluginFormat::Vst3];
    assert!(has_format(&formats, PluginFormat::Clap));
    assert!(has_format(&formats, PluginFormat::Vst3));
    assert!(!has_format(&formats, PluginFormat::Auv2));
    assert!(!has_format(&vec![], PluginFormat::Clap));
}
