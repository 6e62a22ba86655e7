//! Which script file to write when the reply says it holds a script, and in
//! which directory.

use vstd::prelude::*;
use crate::logic::response::NecoResponse;

verus! {

/// A file to be written: its name inside the target directory, and its text.
#[derive(Clone, Debug)]
pub struct ScriptFile {
    pub file_name: String,
    pub body: String,
}

/// The directory used when the environment names none: `C:\tmp` on Windows,
/// `/tmp` elsewhere.
pub open spec fn default_dir_of(on_windows: bool) -> Seq<char> {
    if on_windows {
        "C:\\tmp"@
    } else {
        "/tmp"@
    }
}

/// The directory for scripts when `TMP_DIR` is not set.
pub fn default_tmp_dir(on_windows: bool) -> (r: String)
    ensures
        r@ == default_dir_of(on_windows),
{
    if on_windows {
        String::from_str("C:\\tmp")
    } else {
        String::from_str("/tmp")
    }
}

/// The directory for scripts: the value of `TMP_DIR` when it is set (passed
/// as `env_value`), otherwise the default.
pub fn resolve_tmp_dir(env_value: Option<String>, on_windows: bool) -> (r: String)
    ensures
        r@ == match env_value {
            Some(v) => v@,
            None => default_dir_of(on_windows),
        },
{
    match env_value {
        Some(v) => v,
        None => default_tmp_dir(on_windows),
    }
}

/// The script a reply asks for: only when it was read, says `is_script`, and
/// names a file; the file then holds `command_or_script`.
pub fn script_to_write(resp: Option<&NecoResponse>) -> (r: Option<ScriptFile>)
    ensures
        match resp {
            Some(x) => if x.is_script && x.file_name@.len() > 0 {
                r is Some && r->0.file_name@ == x.file_name@ && r->0.body@ == x.command_or_script@
            } else {
                r is None
            },
            None => r is None,
        },
{
    let resp = match resp {
        Some(x) => x,
        None => {
            return None;
        },
    };
    if !resp.is_script || resp.file_name.as_str().is_empty() {
        return None;
    }
    Some(ScriptFile { file_name: resp.file_name.clone(), body: resp.command_or_script.clone() })
}

} // verus!
