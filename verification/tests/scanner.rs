use plugin_packager::error::PipelineError;
use plugin_packager::scanner::{normalize_name, parse_native_libraries};

fn strings(items: &[&str]) -> Vec<String> {
    items.iter().map(|s| s.to_string()).collect()
}

#[test]
fn scanner_reads_flags_of_the_crate() {
    let stderr = b"   Compiling gain-example v0.1.0\n     Running `rustc --crate-name gain_example --edition=2021 src/lib.rs -L dependency=/t/deps -L native=/usr/lib/foo -L native=/opt/bar`\n";
    let found = parse_native_libraries(b"", stderr, "gain-example");
    assert_eq!(found, Ok(strings(&["/usr/lib/foo", "/opt/bar"])));
}

#[test]
fn scanner_ignores_flags_before_the_section() {
    let stderr = b"rustc --crate-name other -L native=/before\nrustc --crate-name gain_example -L native=/inside\n";
    let found = parse_native_libraries(b"", stderr, "gain-example");
    assert_eq!(found, Ok(strings(&["/inside"])));
}

#[test]
fn scanner_keeps_the_section_open() {
    let stderr = b"rustc --crate-name gain_example -L native=/inside\nrustc --crate-name later -L native=/after\n";
    let found = parse_native_libraries(b"", stderr, "gain-example");
    assert_eq!(found, Ok(strings(&["/inside", "/after"])));
}

#[test]
fn scanner_counts_n_inside_and_ignores_m_outside() {
    let stdout = b"-L native=/m1\n-L native=/m2 -L native=/m3\n--crate-name demo\n-L native=/n1\nnoise\n-L native=/n2 -L native=/n1\n";
    let found = parse_native_libraries(stdout, b"", "demo");
    assert_eq!(found, Ok(strings(&["/n1", "/n2"])));
}

#[test]
fn scanner_reads_flag_on_the_marker_line_only_after_the_marker_line_starts() {
    let stdout = b"-L native=/same/line --crate-name demo\n";
    let found = parse_native_libraries(stdout, b"", "demo");
    assert_eq!(found, Ok(strings(&["/same/line"])));
}

#[test]
fn scanner_strips_quotes() {
    let stdout = b"--crate-name demo -L native=\"/quoted/dir\" -L native=\"\"/twice\"\" rest\n";
    let found = parse_native_libraries(stdout, b"", "demo");
    assert_eq!(found, Ok(strings(&["/quoted/dir", "/twice"])));
}

#[test]
fn scanner_keeps_quotes_inside_a_token() {
    let stdout = b"--crate-name demo -L native=/a\"b\n";
    let found = parse_native_libraries(stdout, b"", "demo");
    assert_eq!(found, Ok(strings(&["/a\"b"])));
}

#[test]
fn scanner_skips_empty_tokens() {
    let stdout = b"--crate-name demo -L native= /not/this -L native=\"\" -L native=`x -L native=\n";
    let found = parse_native_libraries(stdout, b"", "demo");
    assert_eq!(found, Ok(strings(&[])));
}

#[test]
fn scanner_ends_a_token_at_the_next_flag() {
    let stdout = b"--crate-name demo -L native=/a-L native=/b\n";
    let found = parse_native_libraries(stdout, b"", "demo");
    assert_eq!(found, Ok(strings(&["/a", "/b"])));
}

#[test]
fn scanner_ends_a_token_at_a_backquote() {
    let stdout = b"Running `rustc --crate-name demo -L native=/dir`\n";
    let found = parse_native_libraries(stdout, b"", "demo");
    assert_eq!(found, Ok(strings(&["/dir"])));
}

#[test]
fn scanner_ends_a_token_at_unicode_white_space() {
    let stdout = "--crate-name demo -L native=/a\u{a0}b -L native=/c\u{3000}d -L native=/e\u{2028}f -L native=/g\tz\n";
    let found = parse_native_libraries(stdout.as_bytes(), b"", "demo");
    assert_eq!(found, Ok(strings(&["/a", "/c", "/e", "/g"])));
}

#[test]
fn scanner_keeps_characters_that_are_no_white_space() {
    let stdout = "--crate-name demo -L native=/p\u{e4}th/\u{8d8a}/\u{200b}x\n";
    let found = parse_native_libraries(stdout.as_bytes(), b"", "demo");
    assert_eq!(found, Ok(strings(&["/p\u{e4}th/\u{8d8a}/\u{200b}x"])));
}

#[test]
fn scanner_reports_each_directory_once_standard_output_first() {
    let stdout = b"--crate-name demo -L native=/b -L native=/a\n";
    let stderr = b"--crate-name demo -L native=/a -L native=/c -L native=/b\n";
    let found = parse_native_libraries(stdout, stderr, "demo");
    assert_eq!(found, Ok(strings(&["/b", "/a", "/c"])));
}

#[test]
fn scanner_reads_each_stream_by_itself() {
    let stdout = b"--crate-name demo\n";
    let stderr = b"-L native=/only/in/stderr\n";
    let found = parse_native_libraries(stdout, stderr, "demo");
    assert_eq!(found, Ok(strings(&[])));
}

#[test]
fn scanner_handles_carriage_returns_and_a_last_line_without_line_feed() {
    let stdout = b"--crate-name demo\r\n-L native=/one\r\n-L native=/two";
    let found = parse_native_libraries(stdout, b"", "demo");
    assert_eq!(found, Ok(strings(&["/one", "/two"])));
}

#[test]
fn scanner_does_not_join_lines() {
    let stdout = b"--crate-name\n demo -L native=/x\n--crate-name de\nmo -L native=/y\n";
    let found = parse_native_libraries(stdout, b"", "demo");
    assert_eq!(found, Ok(strings(&[])));
}

#[test]
fn scanner_normalizes_the_crate_name() {
    let stdout = b"--crate-name my-cool-crate -L native=/hyphens\n--crate-name my_cool_crate -L native=/underscores\n";
    let found = parse_native_libraries(stdout, b"", "my-cool-crate");
    assert_eq!(found, Ok(strings(&["/underscores"])));
    assert_eq!(normalize_name("my-cool-crate"), "my_cool_crate");
    assert_eq!(normalize_name("plain"), "plain");
    assert_eq!(normalize_name(""), "");
}

#[test]
fn scanner_opens_the_section_on_a_longer_name() {
    let stdout = b"--crate-name demo_extra -L native=/x\n";
    let found = parse_native_libraries(stdout, b"", "demo");
    assert_eq!(found, Ok(strings(&["/x"])));
}

#[test]
fn scanner_needs_the_whole_flag() {
    let stdout = b"--crate-name demo -L native /x -Lnative=/y -l native=/z -L  native=/w\n";
    let found = parse_native_libraries(stdout, b"", "demo");
    assert_eq!(found, Ok(strings(&[])));
}

#[test]
fn scanner_rejects_text_that_is_not_utf8() {
    let bad = [b'a', 0xff, b'\n'];
    let good = b"--crate-name demo -L native=/x\n";
    assert_eq!(
        parse_native_libraries(&bad, good, "demo"),
        Err(PipelineError::UndecodableDiagnostics)
    );
    assert_eq!(
        parse_native_libraries(good, &bad, "demo"),
        Err(PipelineError::UndecodableDiagnostics)
    );
    let cut = [0xe2, 0x82];
    assert_eq!(
        parse_native_libraries(&cut, b"", "demo"),
        Err(PipelineError::UndecodableDiagnostics)
    );
}

#[test]
fn scanner_finds_nothing_in_empty_streams() {
    assert_eq!(parse_native_libraries(b"", b"", "demo"), Ok(strings(&[])));
    assert_eq!(parse_native_libraries(b"\n\n", b"\n", ""), Ok(strings(&[])));
}

#[test]
fn scanner_with_empty_name_opens_on_the_bare_marker() {
    let stdout = b"--crate-name  -L native=/x\n";
    assert_eq!(parse_native_libraries(stdout, b"", ""), Ok(strings(&["/x"])));
}
