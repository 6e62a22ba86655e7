//! The `runn` file: the generated command, written under a name that depends
//! on the shell so that it can be run again.

use vstd::prelude::*;
use crate::logic::response::NecoResponse;
use crate::logic::script::{default_dir_of, ScriptFile};
use crate::logic::shell::Shell;
use crate::text::{trim, trim_spec};

verus! {

/// The directory for `runn` files when `NEKOKAN_TMP_DIR` is not set.
pub fn default_nekokan_tmp_dir(on_windows: bool) -> (r: String)
    ensures
        r@ == default_dir_of(on_windows),
{
    if on_windows {
        String::from_str("C:\\tmp")
    } else {
        String::from_str("/tmp")
    }
}

/// The directory for `runn` files: the value of `NEKOKAN_TMP_DIR` when it is
/// set (passed as `env_value`), otherwise the default.
pub fn resolve_nekokan_tmp_dir(env_value: Option<String>, on_windows: bool) -> (r: String)
    ensures
        r@ == match env_value {
            Some(v) => v@,
            None => default_dir_of(on_windows),
        },
{
    match env_value {
        Some(v) => v,
        None => default_nekokan_tmp_dir(on_windows),
    }
}

/// The `runn` file name for each shell.
pub open spec fn runn_basename_of(shell: Shell) -> Seq<char> {
    match shell {
        Shell::WindowsCmd => "runn.cmd"@,
        Shell::PowerShell => "runn.ps1"@,
        Shell::Bash => "runn.bash"@,
    }
}

/// The `runn` file name for the shell: `runn.cmd`, `runn.ps1` or `runn.bash`.
pub fn runn_basename(shell: &Shell) -> (r: &'static str)
    ensures
        r@ == runn_basename_of(*shell),
{
    match shell {
        Shell::WindowsCmd => "runn.cmd",
        Shell::PowerShell => "runn.ps1",
        Shell::Bash => "runn.bash",
    }
}

/// The `runn` file a reply asks for: only when it was read and its command is
/// not blank; the file is named after the shell and holds the command.
pub fn runn_script_to_write(resp: Option<&NecoResponse>, shell: &Shell) -> (r: Option<ScriptFile>)
    ensures
        match resp {
            Some(x) => if trim_spec(x.command_or_script@).len() > 0 {
                r is Some && r->0.file_name@ == runn_basename_of(*shell) && r->0.body@
                    == x.command_or_script@
            } else {
                r is None
            },
            None => r is None,
        },
{
    let resp = match resp {
        Some(x) => x,
        None => {
            return None;
        },
    };
    if trim(resp.command_or_script.as_str()).is_empty() {
        return None;
    }
    Some(
        ScriptFile {
            file_name: String::from_str(runn_basename(shell)),
            body: resp.command_or_script.clone(),
        },
    )
}

} // verus!

verus! {

/// Each shell has its own `runn` file name.
pub proof fn lemma_runn_basenames_distinct(a: Shell, b: Shell)
    requires
        runn_basename_of(a) == runn_basename_of(b),
    ensures
        a == b,
{
    reveal_strlit("runn.cmd");
    reveal_strlit("runn.ps1");
    reveal_strlit("runn.bash");
    assert("runn.cmd"@[5] == 'c');
    assert("runn.ps1"@[5] == 'p');
    assert("runn.bash"@[5] == 'b');
    assert(runn_basename_of(a)[5] == runn_basename_of(b)[5]);
}

} // verus!
