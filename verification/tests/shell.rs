use neco::logic::shell::{
    ancestor_step, detect_in_system, is_cargo_lowercase_name, is_cargo_process_name,
    shell_display_name, shell_from_lowercase_name, shell_from_parent_name, AncestorStep, Shell,
    ShellDetector, SysinfoShellDetector, UnsupportedShellError,
};

/// Stand-in detector that answers with a fixed shell, or fails.
struct MockShellDetector(Option<Shell>);

impl ShellDetector for MockShellDetector {
    fn detect(&self) -> Result<Shell, UnsupportedShellError> {
        self.0.clone().ok_or_else(|| UnsupportedShellError {
            parent_name: "mock_unsupported".to_string(),
        })
    }
}

#[test]
fn test_shell_display_name() {
    assert_eq!(
        shell_display_name(&Shell::WindowsCmd),
        "windowsコマンドプロンプト"
    );
    assert_eq!(shell_display_name(&Shell::PowerShell), "powershell");
    assert_eq!(shell_display_name(&Shell::Bash), "bash");
}

#[test]
fn test_mock_detector_returns_shell() {
    let d = MockShellDetector(Some(Shell::Bash));
    assert_eq!(d.detect().unwrap(), Shell::Bash);
}

#[test]
fn test_mock_detector_returns_unsupported() {
    let d = MockShellDetector(None);
    let e = d.detect().unwrap_err();
    assert_eq!(e.parent_name, "mock_unsupported");
    assert!(e.message().contains("サポートしていない"));
}

#[test]
fn test_unsupported_shell_error_display() {
    let e = UnsupportedShellError {
        parent_name: "zsh".to_string(),
    };
    assert!(e.message().contains("zsh"));
}

#[test]
fn test_shell_from_parent_name_cmd() {
    assert_eq!(shell_from_parent_name("cmd.exe"), Some(Shell::WindowsCmd));
    assert_eq!(shell_from_parent_name("CMD.EXE"), Some(Shell::WindowsCmd));
}

#[test]
fn test_shell_from_parent_name_powershell() {
    assert_eq!(
        shell_from_parent_name("powershell.exe"),
        Some(Shell::PowerShell)
    );
}

#[test]
fn test_shell_from_parent_name_bash() {
    assert_eq!(shell_from_parent_name("bash"), Some(Shell::Bash));
    assert_eq!(shell_from_parent_name("wsl.exe"), Some(Shell::Bash));
    assert_eq!(shell_from_parent_name("bash-5.2"), Some(Shell::Bash));
}

#[test]
fn test_shell_from_parent_name_unsupported() {
    assert_eq!(shell_from_parent_name("zsh"), None);
    assert_eq!(shell_from_parent_name("fish"), None);
}

#[test]
fn test_is_cargo_process_name() {
    assert!(is_cargo_process_name("cargo.exe"));
    assert!(is_cargo_process_name("cargo"));
    assert!(is_cargo_process_name("Cargo.EXE"));
    assert!(!is_cargo_process_name("powershell.exe"));
    assert!(!is_cargo_process_name("cargo-build"));
}

#[test]
fn test_sysinfo_detect_runs_without_panic() {
    let detector = SysinfoShellDetector;
    let result = detector.detect();
    match &result {
        Ok(shell) => {
            assert!(matches!(
                shell,
                Shell::WindowsCmd | Shell::PowerShell | Shell::Bash
            ));
        }
        Err(e) => {
            assert!(!e.parent_name.is_empty());
        }
    }
}

#[test]
fn shell_recognition_is_case_insensitive() {
    assert_eq!(shell_from_parent_name("PowerShell.EXE"), Some(Shell::PowerShell));
    assert_eq!(shell_from_parent_name("WSL.exe"), Some(Shell::Bash));
    assert_eq!(shell_from_parent_name("BASH"), Some(Shell::Bash));
}

#[test]
fn shell_from_lowercase_name_takes_the_name_as_given() {
    assert_eq!(shell_from_lowercase_name("cmd.exe"), Some(Shell::WindowsCmd));
    assert_eq!(shell_from_lowercase_name("CMD.EXE"), None);
    assert_eq!(shell_from_lowercase_name("bashful"), Some(Shell::Bash));
    assert_eq!(shell_from_lowercase_name(""), None);
    assert_eq!(shell_from_lowercase_name("pwsh.exe"), None);
}

#[test]
fn cargo_lowercase_name_is_exact() {
    assert!(is_cargo_lowercase_name("cargo"));
    assert!(is_cargo_lowercase_name("cargo.exe"));
    assert!(!is_cargo_lowercase_name("Cargo"));
    assert!(!is_cargo_lowercase_name("cargo.ex"));
}

#[test]
fn ancestor_step_climbs_past_cargo() {
    assert_eq!(ancestor_step("cargo", Some(42)), AncestorStep::Climb(42));
    assert_eq!(ancestor_step("cargo.exe", Some(7)), AncestorStep::Climb(7));
}

#[test]
fn ancestor_step_cargo_without_parent_is_unsupported() {
    assert_eq!(ancestor_step("cargo", None), AncestorStep::Unsupported);
}

#[test]
fn ancestor_step_recognises_shells() {
    assert_eq!(ancestor_step("bash", Some(1)), AncestorStep::Found(Shell::Bash));
    assert_eq!(ancestor_step("cmd.exe", None), AncestorStep::Found(Shell::WindowsCmd));
    assert_eq!(ancestor_step("zsh", Some(1)), AncestorStep::Unsupported);
}

#[test]
fn detect_in_empty_system_reports_unknown_parent() {
    let sys = sysinfo::System::new();
    let e = detect_in_system(&sys, Some(1)).unwrap_err();
    assert_eq!(e.parent_name, "（取得できませんでした）");
    let e = detect_in_system(&sys, None).unwrap_err();
    assert_eq!(e.parent_name, "（取得できませんでした）");
}

#[test]
fn unsupported_message_is_fixed_text_then_name() {
    let e = UnsupportedShellError {
        parent_name: "fish".to_string(),
    };
    assert_eq!(e.message(), "サポートしていないシェルです。親プロセス: fish");
}
