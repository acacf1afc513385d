use ui_bridge::invoke::{
    classify, command_line, run_cli, settle, InvocationError, ProcessReport, EXECUTABLE,
};

fn exited(success: bool, stdout: &[u8], stderr: &[u8]) -> ProcessReport {
    ProcessReport::Exited { success, stdout: stdout.to_vec(), stderr: stderr.to_vec() }
}

#[test]
fn success_gives_the_output() {
    assert_eq!(run_cli(exited(true, b"ok", b"")), Ok("ok".to_string()));
}

#[test]
fn empty_arguments_are_forwarded_as_none() {
    let command = command_line(Vec::new());
    assert_eq!(command.program, "video-compress");
    assert!(command.args.is_empty());
}

#[test]
fn failure_gives_the_error_stream() {
    assert_eq!(run_cli(exited(false, b"", b"bad input")), Err("bad input".to_string()));
}

#[test]
fn failure_is_a_process_failure() {
    match classify(exited(false, b"", b"bad input")) {
        Err(InvocationError::ProcessFailure(text)) => assert_eq!(text, "bad input"),
        Err(InvocationError::SpawnError(_)) => panic!("taken for a failed start"),
        Ok(_) => panic!("taken for a success"),
    }
}

#[test]
fn failed_start_gives_its_description() {
    let reason = "No such file or directory (os error 2)";
    assert_eq!(run_cli(ProcessReport::NotStarted(reason.to_string())), Err(reason.to_string()));
}

#[test]
fn failed_start_is_a_spawn_error() {
    let reason = "No such file or directory (os error 2)";
    match classify(ProcessReport::NotStarted(reason.to_string())) {
        Err(InvocationError::SpawnError(text)) => assert_eq!(text, reason),
        Err(InvocationError::ProcessFailure(_)) => panic!("taken for a process failure"),
        Ok(_) => panic!("taken for a success"),
    }
}

#[test]
fn same_report_same_outcome() {
    let first = run_cli(exited(true, b"frame=100\n", b"warning"));
    let second = run_cli(exited(true, b"frame=100\n", b"warning"));
    assert_eq!(first, second);
    let third = run_cli(exited(false, b"frame=100\n", b"warning"));
    let fourth = run_cli(exited(false, b"frame=100\n", b"warning"));
    assert_eq!(third, fourth);
    assert_ne!(first, third);
}

#[test]
fn success_ignores_the_error_stream() {
    assert_eq!(run_cli(exited(true, b"done", b"deprecated option")), Ok("done".to_string()));
}

#[test]
fn failure_ignores_the_output() {
    assert_eq!(run_cli(exited(false, b"partial", b"disk full")), Err("disk full".to_string()));
}

#[test]
fn output_is_not_trimmed() {
    assert_eq!(run_cli(exited(true, b"  ok \r\n\n", b"")), Ok("  ok \r\n\n".to_string()));
    assert_eq!(run_cli(exited(false, b"", b"\tbad\n")), Err("\tbad\n".to_string()));
}

#[test]
fn empty_streams_give_empty_text() {
    assert_eq!(run_cli(exited(true, b"", b"")), Ok(String::new()));
    assert_eq!(run_cli(exited(false, b"", b"")), Err(String::new()));
}

#[test]
fn output_beyond_ascii_is_decoded() {
    let text = "größe: 12 MB → 3 MB";
    assert_eq!(run_cli(exited(true, text.as_bytes(), b"")), Ok(text.to_string()));
}

#[test]
fn invalid_bytes_are_replaced() {
    assert_eq!(run_cli(exited(true, b"f\xffo", b"")), Ok("f\u{FFFD}o".to_string()));
    assert_eq!(run_cli(exited(false, b"", b"\xc3(")), Err("\u{FFFD}(".to_string()));
}

#[test]
fn settle_goes_by_the_status() {
    assert!(matches!(settle(true, "out".to_string()), Ok(text) if text == "out"));
    assert!(matches!(
        settle(false, "err".to_string()),
        Err(InvocationError::ProcessFailure(text)) if text == "err"
    ));
}

#[test]
fn error_message_is_the_text_it_holds() {
    assert_eq!(InvocationError::SpawnError("not found".to_string()).message(), "not found");
    assert_eq!(InvocationError::ProcessFailure("bad input".to_string()).message(), "bad input");
}

#[test]
fn arguments_are_forwarded_as_they_are() {
    let args = vec![
        "--preset".to_string(),
        "fast-1080p".to_string(),
        "my clip.mp4".to_string(),
        "".to_string(),
        "$HOME;*".to_string(),
    ];
    let command = command_line(args.clone());
    assert_eq!(command.program, EXECUTABLE);
    assert_eq!(command.args, args);
}
