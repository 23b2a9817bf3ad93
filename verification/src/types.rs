//! The messages of the control protocol, as plain values.
//!
//! Their JSON form belongs to the code that sends and receives them.

use vstd::prelude::*;

verus! {

// ---------------------------------------------------------------------------
// Registration
// ---------------------------------------------------------------------------

/// Request to register this node with the control plane.
///
/// The server ties the node key to the machine key of the Noise handshake, and
/// either authorizes the node or returns a URL for interactive login in
/// [`RegisterResponse::auth_url`].
#[derive(Debug)]
pub struct RegisterRequest {
    /// The current node public key, as text.
    pub node_key: String,
    /// The previous node public key, as text, when the key is rotated; empty
    /// on first registration.
    pub old_node_key: String,
    /// The key for registration without login; `None` asks for login.
    pub auth: Option<AuthInfo>,
    /// Description of this machine.
    pub hostinfo: Hostinfo,
    /// The URL to poll after the login URL was visited.
    pub followup: Option<String>,
}

/// Authentication information in a [`RegisterRequest`].
#[derive(Debug)]
pub struct AuthInfo {
    /// The pre-authentication key.
    pub auth_key: Option<String>,
}

/// Description of a machine for the control server.
#[derive(Debug, Clone)]
pub struct Hostinfo {
    /// Identifier that ties together log lines.
    pub backend_log_id: String,
    /// The name of the operating system.
    pub os: String,
    /// The name of the machine.
    pub hostname: String,
    /// The version of the client.
    pub go_version: String,
}

/// Response to a [`RegisterRequest`].
#[derive(Debug)]
pub struct RegisterResponse {
    /// The URL to visit for login; `None` if the machine is authorized.
    pub auth_url: Option<String>,
    /// Whether the machine is authorized.
    pub machine_authorized: bool,
    /// When the node key expires; `None` if it does not.
    pub node_key_expiry: Option<String>,
}

// ---------------------------------------------------------------------------
// Network map
// ---------------------------------------------------------------------------

/// Request for the network map.
#[derive(Debug)]
pub struct MapRequest {
    /// The protocol capability version.
    pub version: u64,
    /// This node's public key, as text.
    pub node_key: String,
    /// This node's disco public key, as text.
    pub disco_key: String,
    /// The endpoints discovered locally.
    pub endpoints: Vec<String>,
    /// Whether the server is to keep sending updates.
    pub stream: bool,
    /// Whether the server is to leave out the peers.
    pub omit_peers: bool,
    /// Description of this machine.
    pub hostinfo: Hostinfo,
}

/// One response of the map endpoint: the full map first, then changes.
///
/// Where `keep_alive` is true all other fields are to be ignored.
#[derive(Debug)]
pub struct MapResponse {
    /// This node; `None` if unchanged.
    pub node: Option<Node>,
    /// All peers, in the first response.
    pub peers: Option<Vec<Node>>,
    /// The peers that were added or have changed.
    pub peers_changed: Option<Vec<Node>>,
    /// The node keys, as text, of the peers that were removed.
    pub peers_removed: Option<Vec<String>>,
    /// The DNS configuration.
    pub dns_config: Option<DnsConfig>,
    /// The relay servers.
    pub derp_map: Option<DerpMap>,
    /// Whether this is only a sign of life.
    pub keep_alive: Option<bool>,
}

/// A node of the network: this machine or a peer.
#[derive(Debug, Clone)]
pub struct Node {
    /// The identifier that the server assigned.
    pub id: i64,
    /// The node's public key, as text.
    pub key: String,
    /// The node's full name.
    pub name: String,
    /// The node's addresses, in CIDR notation.
    pub addresses: Vec<String>,
    /// The addresses that are routed to the node, in CIDR notation.
    pub allowed_ips: Option<Vec<String>>,
    /// Where the node can be reached directly.
    pub endpoints: Option<Vec<String>>,
    /// The node's home relay region.
    pub derp: Option<String>,
    /// The node's disco public key, as text.
    pub disco_key: Option<String>,
    /// Whether the node is online, as far as the server knows.
    pub online: Option<bool>,
}

/// The DNS configuration in a [`MapResponse`].
#[derive(Debug, Clone)]
pub struct DnsConfig {
    /// The upstream resolvers.
    pub resolvers: Option<Vec<DnsResolver>>,
    /// The search domains.
    pub domains: Option<Vec<String>>,
}

/// A DNS resolver.
#[derive(Debug, Clone)]
pub struct DnsResolver {
    /// The resolver's address.
    pub addr: String,
}

/// The relay servers in a [`MapResponse`].
#[derive(Debug, Clone)]
pub struct DerpMap {
    /// The relay regions, as the JSON that the server sent.
    pub regions: Option<serde_json::Value>,
}

} // verus!
