//! The messages exchanged with the chat-completion server (OpenAI-compatible).

pub mod lm_studio;

pub use lm_studio::{
    chat_completions_url, chat_messages, reply_content, resolve_base_url, status_is_success,
    ChatCompletionResponse, ChatMessage, Choice, Message, MockLmStudioClient,
};
