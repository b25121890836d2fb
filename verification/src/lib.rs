//! A Feishu channel for a chat gateway, and Kimi as a provider of chat
//! completions: the parts that decide and compute, with their contracts.
pub mod assoc;
pub mod feishu;
pub mod json;
pub mod json_codec;
pub mod kimi;
pub mod number;
pub mod text;
pub mod text_laws;
pub mod text_map;
