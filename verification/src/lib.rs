//! Turns a plain-language description into a prompt for a local
//! chat-completion server, and interprets what the server answers.

pub mod api;
pub mod logic;
pub mod text;

use vstd::prelude::*;
use crate::logic::prompt::{build_messages, user_prefix_of, SYSTEM_MESSAGE};
use crate::logic::shell::{unsupported_message_head, Shell, ShellDetector, UnsupportedShellError};
use crate::text::{trim, trim_spec};

verus! {

/// Why no prompt could be prepared.
#[derive(Clone, Debug)]
pub enum GenerateError {
    /// The description is empty once surrounding whitespace is removed.
    EmptyDescription,
    /// The shell could not be detected or is not supported.
    UnsupportedShell(UnsupportedShellError),
}

/// Text of the error for an empty description.
pub open spec fn empty_description_message() -> Seq<char> {
    "コマンドの説明が空です。"@
}

impl GenerateError {
    /// The human-readable message of the error.
    pub fn message(&self) -> (r: String)
        ensures
            r@ == match self {
                GenerateError::EmptyDescription => empty_description_message(),
                GenerateError::UnsupportedShell(e) => unsupported_message_head() + e.parent_name@,
            },
    {
        match self {
            GenerateError::EmptyDescription => String::from_str("コマンドの説明が空です。"),
            GenerateError::UnsupportedShell(e) => e.message(),
        }
    }
}

/// What is sent to the server, and the shell it was written for.
#[derive(Clone, Debug)]
pub struct Prompt {
    pub system: String,
    pub user: String,
    pub shell: Shell,
}

/// The prompt for a (trimmed) description once the shell detection has
/// answered `detected`: the messages for the shell, or the detection's error.
pub fn prompt_for_detection(
    description: &str,
    detected: Result<Shell, UnsupportedShellError>,
) -> (r: Result<Prompt, GenerateError>)
    ensures
        match detected {
            Ok(s) => r is Ok && r->Ok_0.shell == s && r->Ok_0.system@ == SYSTEM_MESSAGE@
                && r->Ok_0.user@ == user_prefix_of(s) + description@,
            Err(e) => r == Err::<Prompt, GenerateError>(GenerateError::UnsupportedShell(e)),
        },
{
    match detected {
        Ok(shell) => {
            let (system, user) = build_messages(&shell, description);
            Ok(Prompt { system, user, shell })
        },
        Err(e) => Err(GenerateError::UnsupportedShell(e)),
    }
}

/// Prepares the prompt for a description: the description is trimmed and must
/// not be empty; then the shell is detected and the messages are built for it.
pub fn prepare_prompt<D: ShellDetector>(command_description: &str, detector: &D) -> (r: Result<
    Prompt,
    GenerateError,
>)
    ensures
        trim_spec(command_description@).len() == 0 <==> r == Err::<Prompt, GenerateError>(
            GenerateError::EmptyDescription,
        ),
        r is Ok ==> r->Ok_0.system@ == SYSTEM_MESSAGE@ && r->Ok_0.user@ == user_prefix_of(
            r->Ok_0.shell,
        ) + trim_spec(command_description@),
        r is Ok ==> detector.detect_ok(Ok(r->Ok_0.shell)),
        r matches Err(GenerateError::UnsupportedShell(e)) ==> detector.detect_ok(Err(e)),
{
    let description = trim(command_description);
    if description.is_empty() {
        return Err(GenerateError::EmptyDescription);
    }
    let detected = detector.detect();
    prompt_for_detection(description, detected)
}

} // verus!
