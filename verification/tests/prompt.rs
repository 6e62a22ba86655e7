use neco::logic::prompt::{build_messages, user_message_prefix, SYSTEM_MESSAGE};
use neco::logic::shell::Shell;

#[test]
fn test_build_messages_user_contains_shell_and_description() {
    let (system, user) = build_messages(&Shell::Bash, "ファイル一覧を出して");
    assert!(system.contains("エキスパート"));
    assert!(user.contains("bash用のコマンド"));
    assert!(user.contains("ファイル一覧を出して"));
}

#[test]
fn test_build_messages_powershell() {
    let (_, user) = build_messages(&Shell::PowerShell, "dir");
    assert!(user.contains("powershell用のコマンド"));
    assert!(user.contains("dir"));
}

#[test]
fn test_system_message_contains_json_format() {
    assert!(SYSTEM_MESSAGE.contains("command_or_script"));
    assert!(SYSTEM_MESSAGE.contains("file_name"));
    assert!(SYSTEM_MESSAGE.contains("is_script"));
    assert!(SYSTEM_MESSAGE.contains("from_cache"));
    assert!(SYSTEM_MESSAGE.contains("description"));
}

#[test]
fn user_message_prefix_exact_text() {
    assert_eq!(
        user_message_prefix(&Shell::WindowsCmd),
        "以下の仕様を満たすwindowsコマンドプロンプト用のコマンドまたはファイルを生成してください。\n\n"
    );
}

#[test]
fn user_message_is_prefix_then_description() {
    let (system, user) = build_messages(&Shell::Bash, "ls");
    assert_eq!(system, SYSTEM_MESSAGE);
    assert_eq!(
        user,
        "以下の仕様を満たすbash用のコマンドまたはファイルを生成してください。\n\nls"
    );
    let (system2, _) = build_messages(&Shell::WindowsCmd, "something else");
    assert_eq!(system, system2);
}
