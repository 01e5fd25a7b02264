use testresult::diagnostic::chain_diagnostic;
use testresult::diagnostic::diagnostic_message;
use testresult::diagnostic::render_chain;

#[test]
fn message_frames_label_and_rendering() {
    let msg = diagnostic_message("propagated failure", "boom");
    assert_eq!(msg, "error: propagated failure - boom");
}

#[test]
fn message_with_empty_parts() {
    assert_eq!(diagnostic_message("", ""), "error:  - ");
}

#[test]
fn chain_of_three_joins_outer_to_inner() {
    let segments = vec!["outer".to_string(), "inner".to_string(), "root".to_string()];
    assert_eq!(render_chain(&segments), "outer: inner: root");
}

#[test]
fn chain_of_none_is_empty() {
    let segments: Vec<String> = Vec::new();
    assert_eq!(render_chain(&segments), "");
}

#[test]
fn chain_of_one_is_that_segment() {
    let segments = vec!["only".to_string()];
    assert_eq!(render_chain(&segments), "only");
}

#[test]
fn chain_keeps_empty_segments() {
    let segments = vec![String::new(), "x".to_string()];
    assert_eq!(render_chain(&segments), ": x");
}

#[test]
fn invalid_utf8_payload_text() {
    let failure = String::from_utf8(vec![0, 159, 146, 150]).unwrap_err();
    let msg = diagnostic_message("propagated failure", &failure.to_string());
    assert!(msg.ends_with("invalid utf-8 sequence of 1 bytes from index 1"));
    assert_eq!(
        msg,
        "error: propagated failure - invalid utf-8 sequence of 1 bytes from index 1"
    );
}

#[test]
fn missing_file_payload_text() {
    let failure = std::io::Error::from_raw_os_error(2);
    let msg = diagnostic_message("propagated failure", &failure.to_string());
    assert_eq!(
        msg,
        "error: propagated failure - No such file or directory (os error 2)"
    );
}

#[test]
fn context_chain_payload_text() {
    let segments = vec![
        "Reading a file".to_string(),
        "No such file or directory (os error 2)".to_string(),
    ];
    let rendered = render_chain(&segments);
    assert_eq!(
        rendered,
        "Reading a file: No such file or directory (os error 2)"
    );
    let msg = chain_diagnostic("propagated failure", &segments);
    assert_eq!(
        msg,
        "error: propagated failure - Reading a file: No such file or directory (os error 2)"
    );
}

#[test]
fn frame_reproduces_file_error_payload() {
    let failure = std::io::Error::from_raw_os_error(2);
    let msg = diagnostic_message("std::io::Error", &failure.to_string());
    assert_eq!(
        msg,
        "error: std::io::Error - No such file or directory (os error 2)"
    );
}

#[test]
fn frame_reproduces_utf8_error_payload() {
    let failure = String::from_utf8(vec![0, 159, 146, 150]).unwrap_err();
    let msg = diagnostic_message("alloc::string::FromUtf8Error", &failure.to_string());
    assert_eq!(
        msg,
        "error: alloc::string::FromUtf8Error - invalid utf-8 sequence of 1 bytes from index 1"
    );
}

#[test]
fn frame_reproduces_context_chain_payload() {
    let root = String::from_utf8(vec![0, 159, 146, 150]).unwrap_err();
    let chained = anyhow::Error::new(root).context("Parsing a string");
    let msg = diagnostic_message("anyhow::Error", &format!("{:#}", chained));
    assert_eq!(
        msg,
        "error: anyhow::Error - Parsing a string: invalid utf-8 sequence of 1 bytes from index 1"
    );
}

#[test]
fn anyhow_chain_renders_expanded() {
    let root = String::from_utf8(vec![0, 159, 146, 150]).unwrap_err();
    let chained = anyhow::Error::new(root).context("Parsing a string");
    let rendered = format!("{:#}", chained);
    assert_eq!(
        rendered,
        "Parsing a string: invalid utf-8 sequence of 1 bytes from index 1"
    );
    let msg = diagnostic_message("propagated failure", &rendered);
    assert_eq!(
        msg,
        "error: propagated failure - Parsing a string: invalid utf-8 sequence of 1 bytes from index 1"
    );
}
