//! A webhook notification router's translation core.
//!
//! Inbound notifications from several chat platforms are normalized
//! into one platform-neutral event ([`models::UemEvent`]), and a
//! canonical event is re-encoded into the wire shape any of the same
//! platforms expects.  The JSON documents involved are held in the
//! crate's own model ([`json::Json`]); the Markdown bodies are
//! transcoded through one shared event stream ([`markdown`]).

pub mod dingtalk;
pub mod http;
pub mod json;
pub mod json_read;
pub mod lark;
pub mod markdown;
pub mod models;
pub mod registry;
pub mod slack;
pub mod text;
pub mod title;
pub mod util;
pub mod wecom;
