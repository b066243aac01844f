//! Tracker endpoints: what a tracker URL resolves to, and the `host:port`
//! form that a socket takes.
use vstd::prelude::*;
use vstd::string::StringExecFns;
use crate::decimal::{spec_udec_chars, u64_to_decimal};
use crate::messages::CodecError;

verus! {

/// What this client reads from a parsed URL, as plain values: the normalized
/// serialization, the scheme, and the authority's host and port where the
/// URL has them.
pub struct UrlParts {
    pub serialized: String,
    pub scheme: String,
    pub host: Option<String>,
    pub port: Option<u16>,
}

/// What parsing a URL from the given bytes yields: a function of the bytes
/// alone, nothing when they are not UTF-8 or not a URL.
pub uninterp spec fn url_parse_of(bytes: Seq<u8>) -> Option<UrlParts>;

/// Relies on url::Url::parse and its accessors as_str, scheme, host_str and
/// port: parsing is deterministic in the input bytes alone; non-UTF-8 input
/// and invalid URLs yield nothing.
#[verifier::external_body]
pub(crate) fn parse_url(bytes: &[u8]) -> (r: Option<UrlParts>)
    ensures
        r == url_parse_of(bytes@),
{
    let s = core::str::from_utf8(bytes).ok()?;
    let u = url::Url::parse(s).ok()?;
    Some(
        UrlParts {
            serialized: u.as_str().to_string(),
            scheme: u.scheme().to_string(),
            host: u.host_str().map(|h| h.to_string()),
            port: u.port(),
        },
    )
}

/// The tracker transports in scope; only UDP trackers are contacted.
#[derive(Debug, Clone, Copy, PartialEq, Eq, Structural)]
pub enum TrackerProtocol {
    UDP,
    HTTP,
}

/// A resolved tracker endpoint: protocol, host, and port (80 when the URL
/// names none).
#[derive(Debug)]
pub struct Tracker {
    pub protocol: TrackerProtocol,
    pub host: String,
    pub port: u16,
}

pub struct TrackerView {
    pub protocol: TrackerProtocol,
    pub host: Seq<char>,
    pub port: u16,
}

impl View for Tracker {
    type V = TrackerView;

    open spec fn view(&self) -> TrackerView {
        TrackerView { protocol: self.protocol, host: self.host@, port: self.port }
    }
}

/// What a tracker URL's bytes resolve to: the endpoint, or `BadFormat` when
/// the bytes are not a URL, the scheme is neither `udp` nor `http`, or the
/// URL has no host.
pub open spec fn spec_tracker_from_url(bytes: Seq<u8>) -> Result<TrackerView, CodecError> {
    match url_parse_of(bytes) {
        Option::None => Err(CodecError::BadFormat),
        Option::Some(parts) => {
            let protocol = if parts.scheme@ == "udp"@ {
                Some(TrackerProtocol::UDP)
            } else if parts.scheme@ == "http"@ {
                Some(TrackerProtocol::HTTP)
            } else {
                None
            };
            match protocol {
                Option::None => Err(CodecError::BadFormat),
                Option::Some(protocol) => match parts.host {
                    Option::None => Err(CodecError::BadFormat),
                    Option::Some(host) => Ok(
                        TrackerView {
                            protocol,
                            host: host@,
                            port: match parts.port {
                                Option::Some(p) => p,
                                Option::None => 80,
                            },
                        },
                    ),
                },
            }
        },
    }
}

pub open spec fn spec_host_port_chars(host: Seq<char>, port: u16) -> Seq<char> {
    host + seq![':'] + spec_udec_chars(port as int)
}

impl Tracker {
    /// Resolve one `tr` value of a magnet link to an endpoint. Fails with
    /// `BadFormat` when the value is not a URL, its scheme is neither `udp`
    /// nor `http`, or it has no host.
    pub fn from_magnet_link(tr: &[u8]) -> (r: Result<Tracker, CodecError>)
        ensures
            r.is_ok() == spec_tracker_from_url(tr@).is_ok(),
            r matches Ok(t) ==> t@ == spec_tracker_from_url(tr@).unwrap(),
    {
        let parts = match parse_url(tr) {
            Option::Some(p) => p,
            Option::None => {
                return Err(CodecError::BadFormat);
            },
        };
        let udp = String::from_str("udp");
        let http = String::from_str("http");
        let protocol = if parts.scheme == udp {
            TrackerProtocol::UDP
        } else if parts.scheme == http {
            TrackerProtocol::HTTP
        } else {
            return Err(CodecError::BadFormat);
        };
        let host = match parts.host {
            Option::Some(h) => h,
            Option::None => {
                return Err(CodecError::BadFormat);
            },
        };
        let port = match parts.port {
            Option::Some(p) => p,
            Option::None => 80,
        };
        Ok(Tracker { protocol, host, port })
    }

    /// The `host:port` form that a socket address lookup takes.
    pub fn to_host_port(&self) -> (r: String)
        ensures
            r@ == spec_host_port_chars(self.host@, self.port),
    {
        proof {
            reveal_strlit(":");
        }
        let mut s = self.host.clone();
        s.append(":");
        let port = u64_to_decimal(self.port as u64);
        s.append(port.as_str());
        proof {
            assert(s@ =~= spec_host_port_chars(self.host@, self.port));
        }
        s
    }
}

} // verus!
