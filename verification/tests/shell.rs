use path_repair::shell::{
    extract_path_assignment, repair_via_login_shell, ShellCapture, ShellRepairError,
};

#[test]
fn missing_shell_signals_unavailable() {
    let result = repair_via_login_shell(ShellCapture::ShellMissing);
    assert_eq!(result, Err(ShellRepairError::ShellUnavailable));
}

#[test]
fn failed_shell_signals_execution_failure() {
    let result = repair_via_login_shell(ShellCapture::ShellFailed);
    assert_eq!(result, Err(ShellRepairError::ShellExecutionFailed));
}

#[test]
fn captured_environment_yields_path_value() {
    let out = String::from("HOME=/home/u\nPATH=/opt/homebrew/bin:/usr/bin\nSHELL=/bin/zsh\n");
    let result = repair_via_login_shell(ShellCapture::Output(out));
    assert_eq!(result, Ok(String::from("/opt/homebrew/bin:/usr/bin")));
}

#[test]
fn output_without_assignment_is_unparseable() {
    let out = String::from("no path here\nXPATH=/not/at/line/start\n");
    let result = repair_via_login_shell(ShellCapture::Output(out));
    assert_eq!(result, Err(ShellRepairError::ShellOutputUnparseable));
}

#[test]
fn first_assignment_wins() {
    let value = extract_path_assignment("PATH=/a:/b\nPATH=/c\n");
    assert_eq!(value, Some(String::from("/a:/b")));
}

#[test]
fn assignment_value_runs_to_end_without_newline() {
    assert_eq!(extract_path_assignment("PATH=/a"), Some(String::from("/a")));
}

#[test]
fn assignment_may_be_empty() {
    assert_eq!(extract_path_assignment("PATH=\nHOME=/h\n"), Some(String::from("")));
}

#[test]
fn assignment_may_start_mid_output() {
    let value = extract_path_assignment("TERM=xterm\nPATH=/x\n");
    assert_eq!(value, Some(String::from("/x")));
}

#[test]
fn empty_or_truncated_output_is_unparseable() {
    assert_eq!(extract_path_assignment(""), None);
    assert_eq!(extract_path_assignment("PAT"), None);
    assert_eq!(extract_path_assignment("PATH"), None);
}
