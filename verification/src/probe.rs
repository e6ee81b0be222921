//! The common shape of a ping result, independent of the wire protocol,
//! and the decision rule for the two-protocol race.

use vstd::prelude::*;

verus! {

/// The protocol families a server can be probed over.
#[derive(Debug, Clone, Copy, Eq, PartialEq, Hash, Structural)]
pub enum ProtocolType {
    /// Ping using the Java protocol only.
    Java,
    /// Ping using the Bedrock protocol only.
    Bedrock,
    /// Ping using all protocols, returning the first successful result.
    Auto,
}

impl ProtocolType {
    /// The short name of the protocol, used to build identity keys and
    /// identicon seeds.
    pub fn tag(&self) -> (r: &'static str)
        ensures
            r@ == self.spec_tag(),
    {
        proof {
            reveal_strlit("Java");
            reveal_strlit("Bedrock");
            reveal_strlit("Auto");
        }
        match self {
            ProtocolType::Java => "Java",
            ProtocolType::Bedrock => "Bedrock",
            ProtocolType::Auto => "Auto",
        }
    }

    /// What `tag` returns, as a sequence of characters.
    pub open spec fn spec_tag(&self) -> Seq<char> {
        match self {
            ProtocolType::Java => "Java"@,
            ProtocolType::Bedrock => "Bedrock"@,
            ProtocolType::Auto => "Auto"@,
        }
    }
}

/// Information about the server's version.
#[derive(Debug, Clone, Eq, PartialEq, Hash)]
pub struct Version {
    /// The name of the version the server is running.
    pub name: String,
    /// The protocol number, when the server reports one.
    pub protocol: Option<i64>,
}

/// A player that appeared in the probe's sample listing.
#[derive(Debug, Clone, Eq, PartialEq, Hash)]
pub struct Player {
    /// The player's name.
    pub name: String,
    /// The player's UUID.
    pub id: String,
}

/// Information about online players.
#[derive(Debug, Clone, Eq, PartialEq, Hash)]
pub struct Players {
    /// The number of players currently online.
    pub online: i64,
    /// The advertised player capacity; `online` may exceed it.
    pub max: i64,
    /// A sample of online players, in the order the probe returned them.
    pub sample: Vec<Player>,
}

/// A successful ping response, unified over both wire protocols.
#[derive(Debug, Clone, Eq, PartialEq, Hash)]
pub struct Response {
    /// The protocol that actually answered.
    pub protocol_type: ProtocolType,
    /// Round-trip latency to the server, in milliseconds.
    pub latency: u64,
    /// Version information.
    pub version: Version,
    /// Player counts and sample.
    pub players: Players,
    /// The server's description text.
    pub motd: String,
    /// The server icon, when provided (a Base64-encoded PNG image,
    /// possibly still carrying a media-type prefix).
    pub favicon: Option<String>,
}

/// Why a probe failed, kept distinct end-to-end so a caller can tell a bad
/// address from a transient outage.
#[derive(Debug, Clone, Eq, PartialEq)]
pub enum ProbeError {
    /// The host name could not be resolved.
    DnsLookupFailed,
    /// The address was not in a usable form.
    InvalidAddress,
    /// Connecting, sending or receiving failed, including timeouts.
    Io(String),
    /// The server answered with something that is not a valid response.
    Protocol(String),
}

/// What `ProbeError::message` returns for each failure.
pub open spec fn spec_probe_message(e: ProbeError) -> Seq<char> {
    match e {
        ProbeError::DnsLookupFailed => "DNS lookup for the host provided failed"@,
        ProbeError::InvalidAddress => "an invalid address was provided"@,
        ProbeError::Io(s) => s@,
        ProbeError::Protocol(s) => s@,
    }
}

impl ProbeError {
    /// A human-readable description of the failure.
    pub fn message(&self) -> (r: String)
        ensures
            r@ == spec_probe_message(*self),
    {
        match self {
            ProbeError::DnsLookupFailed => String::from_str(
                "DNS lookup for the host provided failed",
            ),
            ProbeError::InvalidAddress => String::from_str("an invalid address was provided"),
            ProbeError::Io(s) => s.clone(),
            ProbeError::Protocol(s) => s.clone(),
        }
    }
}

/// The outcome of racing two probes, given their results in completion
/// order: the first success wins, and only two failures make a failure,
/// which is reported as one aggregate timeout-style error.
///
/// The caller feeds results in the order the probes finished, so which
/// protocol wins a near-simultaneous double success is decided by that
/// order, not here.
pub fn race_outcome(first: Result<Response, ProbeError>, second: Result<Response, ProbeError>) -> (r:
    Result<Response, ProbeError>)
    ensures
        first is Ok ==> r == first,
        first is Err && second is Ok ==> r == second,
        first is Err && second is Err ==> (r matches Err(e) && e matches ProbeError::Io(m)
            && m@ == "neither probe returned a valid response"@),
{
    match (first, second) {
        (Ok(resp), _) => Ok(resp),
        (Err(_), Ok(resp)) => Ok(resp),
        (Err(_), Err(_)) => Err(ProbeError::Io(String::from_str(
            "neither probe returned a valid response",
        ))),
    }
}

} // verus!
