//! Verified core of the Mirishita information bot: what it replies to each
//! command and button, computed from plain values.
pub mod callback_types;
pub mod cmd;
pub mod text;
pub mod utils;
pub mod types;
pub mod matsurihi;
pub mod telegram;
pub mod constants;
pub mod handler;
pub mod kv_cache_wrapper;
