//! Normalized messages exchanged with the remote channels.

use vstd::prelude::*;

verus! {

/// An inbound message, normalized across platforms.
#[derive(Debug)]
pub struct InboundMessage {
    pub channel: String,
    pub account: Option<String>,
    pub peer_id: String,
    pub peer_name: Option<String>,
    pub text: String,
    /// Always `text` for now.
    pub kind: String,
    pub context_token: Option<String>,
    pub received_at: String,
}

/// One item of outbound content; only text for now.
#[derive(Debug)]
pub enum OutItem {
    Text(String),
}

/// Where a reply goes. WeChat needs the context token of the conversation.
#[derive(Debug)]
pub struct PeerRef {
    pub channel: String,
    pub account: Option<String>,
    pub peer_id: String,
    pub context_token: Option<String>,
}

} // verus!
