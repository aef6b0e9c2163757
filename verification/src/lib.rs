//! Verified core of the XRL Router proxy: the protocol-neutral request and
//! stream representation, the translations between it and the three client
//! protocols, and the rules the proxy applies on top of them.

pub mod json;
pub mod ir;
pub mod non_stream;
pub mod outside;
pub mod usage;
pub mod from_chat_completions;
pub mod text;
pub mod audit;
pub mod forward;
pub mod stream;
pub mod config;
pub mod failover;
pub mod key_rotation;
pub mod fm;
pub mod handlers;
pub mod router;
pub mod from_messages;
pub mod from_anthropic;
pub mod websearch;
pub mod from_responses;
pub mod responses_blocks;
pub mod to_chat_completions;
pub mod to_messages;
pub mod sniff;
pub mod route;
pub mod combos;
pub mod dispatch;
pub mod upstream;
pub mod handler;
pub mod websearch_loop;
pub mod messages_round_trip;
pub mod chat_round_trip;
