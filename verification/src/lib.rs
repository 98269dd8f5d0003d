//! Verified core of the openab agent broker.

pub mod acp;
pub mod admission;
pub mod autonomous_ingress;
pub mod base_laws;
pub mod clock;
pub mod config;
pub mod decimal;
pub mod digest;
pub mod dispatch;
pub mod json;
pub mod json_laws;
pub mod log;
pub mod paths;
pub mod redact;
pub mod role_completion_answers;
pub mod role_completion_block;
pub mod role_completion_laws;
pub mod terminal_delivery;
pub mod text;
pub mod text_laws;
pub mod text_map;
