use neco::logic::response::NecoResponse;
use neco::logic::runn::{
    default_nekokan_tmp_dir, resolve_nekokan_tmp_dir, runn_basename, runn_script_to_write,
};
use neco::logic::script::{default_tmp_dir, resolve_tmp_dir, script_to_write};
use neco::logic::shell::Shell;

fn reply(command: &str, file_name: &str, is_script: bool) -> NecoResponse {
    NecoResponse {
        command_or_script: command.to_string(),
        file_name: file_name.to_string(),
        is_script,
        from_cache: false,
        description: String::new(),
    }
}

#[test]
fn test_runn_basename() {
    assert_eq!(runn_basename(&Shell::WindowsCmd), "runn.cmd");
    assert_eq!(runn_basename(&Shell::PowerShell), "runn.ps1");
    assert_eq!(runn_basename(&Shell::Bash), "runn.bash");
}

#[test]
fn runn_script_skips_unread_reply() {
    assert!(runn_script_to_write(None, &Shell::Bash).is_none());
}

#[test]
fn runn_script_skips_blank_command() {
    let r = reply("   ", "", false);
    assert!(runn_script_to_write(Some(&r), &Shell::Bash).is_none());
}

#[test]
fn runn_script_holds_command_under_shell_name() {
    let r = reply("echo ok", "", false);
    let f = runn_script_to_write(Some(&r), &Shell::Bash).unwrap();
    assert_eq!(f.file_name, "runn.bash");
    assert_eq!(f.body, "echo ok");
    let f = runn_script_to_write(Some(&r), &Shell::PowerShell).unwrap();
    assert_eq!(f.file_name, "runn.ps1");
}

#[test]
fn script_skips_unread_reply() {
    assert!(script_to_write(None).is_none());
}

#[test]
fn script_skips_when_not_a_script() {
    let r = reply("ls", "", false);
    assert!(script_to_write(Some(&r)).is_none());
    let r = reply("ls", "a.sh", false);
    assert!(script_to_write(Some(&r)).is_none());
}

#[test]
fn script_skips_when_file_name_empty() {
    let r = reply("ls", "", true);
    assert!(script_to_write(Some(&r)).is_none());
}

#[test]
fn script_is_written_under_its_file_name() {
    let r = reply("#!/bin/bash\necho hi", "hello.sh", true);
    let f = script_to_write(Some(&r)).unwrap();
    assert_eq!(f.file_name, "hello.sh");
    assert_eq!(f.body, "#!/bin/bash\necho hi");
}

#[test]
fn tmp_dirs_default_by_platform() {
    assert_eq!(default_tmp_dir(true), "C:\\tmp");
    assert_eq!(default_tmp_dir(false), "/tmp");
    assert_eq!(default_nekokan_tmp_dir(true), "C:\\tmp");
    assert_eq!(default_nekokan_tmp_dir(false), "/tmp");
}

#[test]
fn tmp_dirs_prefer_environment() {
    assert_eq!(resolve_tmp_dir(Some("/custom/tmp".to_string()), false), "/custom/tmp");
    assert_eq!(resolve_tmp_dir(None, false), "/tmp");
    assert_eq!(resolve_nekokan_tmp_dir(Some("/x/y".to_string()), true), "/x/y");
    assert_eq!(resolve_nekokan_tmp_dir(None, true), "C:\\tmp");
}

#[test]
fn script_keeps_any_non_empty_file_name() {
    for name in ["hello.sh", "sub/x.sh", "/etc/x", "../up.sh", "C:x.ps1"] {
        let r = reply("echo hi", name, true);
        assert_eq!(script_to_write(Some(&r)).unwrap().file_name, name);
    }
}
