use plugin_packager::error::{build_failure_message, PipelineError};
use plugin_packager::text::{
    appended, chars_of, distinct_strings, find_text, has_text, join_list, matches_at, same_text,
    slice_of, string_of,
};

fn chars(s: &str) -> Vec<char> {
    s.chars().collect()
}

#[test]
fn messages_name_the_failing_phase() {
    assert_eq!(
        PipelineError::ToolchainUnavailable { detail: String::new() }.message(),
        "Failed to add required targets"
    );
    assert_eq!(
        PipelineError::ToolchainUnavailable { detail: "no rustup".to_string() }.message(),
        "Failed to add required targets: no rustup"
    );
    assert_eq!(
        PipelineError::ArtifactNotFound { path: "/t/libx.a".to_string() }.message(),
        "Static library file not found: /t/libx.a"
    );
    assert_eq!(
        PipelineError::UndecodableDiagnostics.message(),
        "stream did not contain valid UTF-8"
    );
    assert_eq!(
        PipelineError::FilesystemError { detail: "No such file".to_string() }.message(),
        "No such file"
    );
}

#[test]
fn build_failure_quotes_diagnostics_that_are_not_utf8() {
    let error = PipelineError::BuildFailure {
        target: None,
        diagnostics: vec![b'o', b'k', 0xff, b'!', 0xe2, 0x82],
    };
    assert_eq!(error.message(), "Failed to build static library: ok\u{fffd}!\u{fffd}");
    let error = PipelineError::BuildFailure {
        target: Some("aarch64-apple-darwin".to_string()),
        diagnostics: "caf\u{e9}".as_bytes().to_vec(),
    };
    assert_eq!(error.message(), "Failed to build for aarch64-apple-darwin: caf\u{e9}");
    let error = PipelineError::BuildFailure { target: None, diagnostics: vec![] };
    assert_eq!(error.message(), "Failed to build static library: ");
}

#[test]
fn build_failure_message_is_put_together() {
    assert_eq!(build_failure_message(&None, "why"), "Failed to build static library: why");
    assert_eq!(
        build_failure_message(&Some("t".to_string()), "why"),
        "Failed to build for t: why"
    );
}

#[test]
fn characters_and_strings_convert_both_ways() {
    assert_eq!(chars_of("a\u{e9}\u{1f600}z"), vec!['a', '\u{e9}', '\u{1f600}', 'z']);
    assert_eq!(chars_of(""), Vec::<char>::new());
    assert_eq!(string_of(&vec!['a', '\u{e9}', '\u{1f600}', 'z']), "a\u{e9}\u{1f600}z");
    assert_eq!(string_of(&vec![]), "");
    assert_eq!(appended("ab", "cd"), "abcd");
    assert_eq!(slice_of(&chars("hello"), 1, 3), chars("el"));
    assert_eq!(slice_of(&chars("hello"), 2, 2), chars(""));
}

#[test]
fn text_is_searched_from_the_left() {
    let hay = chars("abcabc");
    assert!(matches_at(&hay, &chars("abc"), 0));
    assert!(matches_at(&hay, &chars("abc"), 3));
    assert!(!matches_at(&hay, &chars("abc"), 1));
    assert!(!matches_at(&hay, &chars("abc"), 4));
    assert!(!matches_at(&hay, &chars("abc"), 7));
    assert!(matches_at(&hay, &chars(""), 6));
    assert!(!matches_at(&hay, &chars(""), 7));
    assert_eq!(find_text(&hay, &chars("bc"), 0), Some(1));
    assert_eq!(find_text(&hay, &chars("bc"), 2), Some(4));
    assert_eq!(find_text(&hay, &chars("bc"), 5), None);
    assert_eq!(find_text(&hay, &chars(""), 6), Some(6));
    assert_eq!(find_text(&hay, &chars(""), 7), None);
    assert_eq!(find_text(&hay, &chars("abcabcd"), 0), None);
    assert!(has_text(&hay, &chars("cab")));
    assert!(!has_text(&hay, &chars("cb")));
    assert!(same_text(&hay, &chars("abcabc")));
    assert!(!same_text(&hay, &chars("abcab")));
    assert!(!same_text(&hay, &chars("abcabd")));
}

#[test]
fn lists_are_joined_and_made_distinct() {
    let items = vec!["a".to_string(), "b".to_string(), "a".to_string(), "".to_string()];
    assert_eq!(join_list(&items, ";"), "a;b;a;");
    assert_eq!(join_list(&vec![], ";"), "");
    assert_eq!(join_list(&vec!["x".to_string()], ", "), "x");
    assert_eq!(
        distinct_strings(items),
        vec!["a".to_string(), "b".to_string(), "".to_string()]
    );
}
