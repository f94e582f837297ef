//! The data model: the platform-neutral event, the outbound payload,
//! and the administrative records that callers pass around.

use vstd::prelude::*;

use crate::json::Json;

verus! {

/// The platform-neutral representation of one inbound notification.
pub struct UemEvent {
    /// Unique per received notification; taken from a platform-native
    /// id field, or generated when absent.
    pub id: String,
    /// The tag of the platform the notification came from.
    pub source: String,
    /// Unix seconds; extracted and unit-normalized, or the wall clock.
    pub timestamp: i64,
    /// Present only when the source carries a distinct title field.
    pub title: Option<String>,
    /// The best-effort rendered body; never empty.
    pub markdown: String,
    /// The untouched inbound document.
    pub raw: Json,
    /// A small object of platform-specific extracted fields.
    pub meta: Json,
}

/// What an egress builder hands to the dispatcher.
pub struct OutgoingPayload {
    pub body: Json,
    pub content_type: &'static str,
}

/// A single flat error value used for ingress or egress failure
/// signaling.
pub struct AdapterError {
    pub message: String,
}

/// Credentials for the administrative interface.
pub struct BasicAuth {
    pub username: String,
    pub password: String,
}

/// A request to register a notification endpoint.
pub struct CreateEndpointRequest {
    pub name: String,
    pub target_ids: Vec<String>,
}

/// A request to change a notification endpoint.
pub struct UpdateEndpointRequest {
    pub name: Option<String>,
    pub target_ids: Option<Vec<String>>,
}

/// A registered notification endpoint.
pub struct Endpoint {
    pub id: String,
    pub name: String,
    pub target_ids: Vec<String>,
    pub created_at: i64,
}

/// What happened to one delivery attempt.
pub struct DeliveryOutcome {
    pub target_id: String,
    pub status: String,
    pub response_code: Option<u16>,
    pub error: Option<String>,
}

/// The character sequence of an optional string.
pub open spec fn view_opt(o: Option<String>) -> Option<Seq<char>> {
    match o {
        Some(s) => Some(s@),
        None => None,
    }
}

} // verus!
