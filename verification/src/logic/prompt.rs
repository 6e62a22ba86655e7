//! The system and user messages sent to the chat-completion server.

use vstd::prelude::*;
use crate::logic::shell::{display_name_of, shell_display_name, Shell};

verus! {

/// The fixed system message: the assistant's role and the JSON reply format.
pub const SYSTEM_MESSAGE: &'static str = "あなたはWindowsとLinuxのコマンドラインのエキスパートです。ユーザが実行したいことを伝えてきた場合、それを正確に実行するコマンドを作成しユーザに返します。もしユーザのコマンドの説明を正確に実行するのに一行で十分でない場合はis_scriptフラグをtrueにしてスクリプトの内容をユーザに返してください。file_nameは英数字及びファイルで許可される記号、descriptionは日本語で返します。\n\n返事のフォーマットは以下の通りです\n\n{\n  \"command_or_script\": \"{あなたが生成したコマンドまたはスクリプトの中身}\",\n  \"file_name\": \"{もしそのコマンドをファイルにするとした場合、適切なファイル名}\",\n  \"is_script\": true or false,\n  \"from_cache\": 今のところは常にfalse,\n  \"description\": \"コマンドの詳細な説明\"\n}\n";

/// Text that precedes the shell's name in the user message.
pub open spec fn user_prefix_head() -> Seq<char> {
    "以下の仕様を満たす"@
}

/// Text that follows the shell's name in the user message, before the
/// description.
pub open spec fn user_prefix_tail() -> Seq<char> {
    "用のコマンドまたはファイルを生成してください。\n\n"@
}

/// The opening of the user message for `shell`.
pub open spec fn user_prefix_of(shell: Shell) -> Seq<char> {
    user_prefix_head() + display_name_of(shell) + user_prefix_tail()
}

/// The opening of the user message: which shell the command is for. The
/// description is appended after it.
pub fn user_message_prefix(shell: &Shell) -> (r: String)
    ensures
        r@ == user_prefix_of(*shell),
{
    let mut r = String::from_str("以下の仕様を満たす");
    r.append(shell_display_name(shell));
    r.append("用のコマンドまたはファイルを生成してください。\n\n");
    r
}

/// The (system, user) messages for `shell` and a description: the fixed system
/// message, and the shell-specific opening followed by the description.
pub fn build_messages(shell: &Shell, command_description: &str) -> (r: (String, String))
    ensures
        r.0@ == SYSTEM_MESSAGE@,
        r.1@ == user_prefix_of(*shell) + command_description@,
{
    let system = String::from_str(SYSTEM_MESSAGE);
    let mut user = user_message_prefix(shell);
    user.append(command_description);
    (system, user)
}

} // verus!
