use neco::logic::shell::{Shell, ShellDetector, UnsupportedShellError};
use neco::{prepare_prompt, prompt_for_detection, GenerateError};

struct FixedDetector(Option<Shell>);

impl ShellDetector for FixedDetector {
    fn detect(&self) -> Result<Shell, UnsupportedShellError> {
        self.0.clone().ok_or_else(|| UnsupportedShellError {
            parent_name: "mock_unsupported".to_string(),
        })
    }
}

#[test]
fn prepare_prompt_builds_messages_for_detected_shell() {
    let p = prepare_prompt("  ファイル一覧  ", &FixedDetector(Some(Shell::Bash))).unwrap();
    assert_eq!(p.shell, Shell::Bash);
    assert!(p.system.contains("command_or_script"));
    assert!(p.user.ends_with("bash用のコマンドまたはファイルを生成してください。\n\nファイル一覧"));
}

#[test]
fn prepare_prompt_rejects_blank_description() {
    let e = prepare_prompt("  ", &FixedDetector(Some(Shell::Bash))).unwrap_err();
    assert!(matches!(e, GenerateError::EmptyDescription));
    assert!(e.message().contains("空です"));
}

#[test]
fn prepare_prompt_blank_check_comes_before_detection() {
    let e = prepare_prompt("", &FixedDetector(None)).unwrap_err();
    assert!(matches!(e, GenerateError::EmptyDescription));
}

#[test]
fn prepare_prompt_reports_unsupported_shell() {
    let e = prepare_prompt("ls", &FixedDetector(None)).unwrap_err();
    match &e {
        GenerateError::UnsupportedShell(u) => assert_eq!(u.parent_name, "mock_unsupported"),
        _ => panic!("expected an unsupported shell"),
    }
    assert_eq!(e.message(), "サポートしていないシェルです。親プロセス: mock_unsupported");
}

#[test]
fn prompt_for_detection_passes_error_through() {
    let err = UnsupportedShellError { parent_name: "zsh".to_string() };
    let e = prompt_for_detection("ls", Err(err)).unwrap_err();
    assert!(matches!(e, GenerateError::UnsupportedShell(ref u) if u.parent_name == "zsh"));
    let p = prompt_for_detection("dir", Ok(Shell::PowerShell)).unwrap();
    assert_eq!(p.shell, Shell::PowerShell);
    assert!(p.user.ends_with("dir"));
}
