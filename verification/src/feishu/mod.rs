//! The Feishu channel.
pub mod api;
pub mod call_laws;
pub mod card_laws;
pub mod cards;
pub mod channel;
pub mod delivery;
pub mod error;
pub mod events;
pub mod frame_laws;
pub mod frames;
pub mod inbound;
pub mod laws;
pub mod message_laws;
pub mod partials;
pub mod query;
pub mod query_laws;
pub mod request_laws;
pub mod session;
pub mod threads;
pub mod types;
