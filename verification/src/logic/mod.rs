//! Shell detection, prompt building, reply interpretation and the decisions
//! about which script files to write.

pub mod prompt;
pub mod response;
pub mod runn;
pub mod script;
pub mod shell;

pub use shell::{
    ancestor_step, detect_in_system, is_cargo_process_name, shell_display_name,
    shell_from_parent_name, AncestorStep, Shell, ShellDetector, SysinfoShellDetector,
    UnsupportedShellError,
};
pub use prompt::{build_messages, user_message_prefix, SYSTEM_MESSAGE};
pub use response::{strip_markdown_code_block, NecoResponse};
pub use runn::{
    default_nekokan_tmp_dir, resolve_nekokan_tmp_dir, runn_basename, runn_script_to_write,
};
pub use script::{default_tmp_dir, resolve_tmp_dir, script_to_write, ScriptFile};
