//! Transport selection: the deterministic decision table that maps every
//! protocol/host combination of a parsed display address to exactly one
//! transport-opening action, together with the TCP port and domain-socket
//! path computations.

use vstd::prelude::*;
use crate::display::Hostname;
use crate::display::HostnameModel;
use crate::display::Protocol;
use crate::numerals::dec_signed;
use crate::numerals::render_i16;

verus! {

/// The IP version a TCP connection is forced to, when one is.
#[derive(Clone, Copy, Debug, PartialEq, Eq, Structural)]
pub enum IpType {
    V4,
    V6,
}

/// The one transport-opening action a protocol/host combination maps to.
#[derive(Clone, Debug, PartialEq, Eq)]
pub enum TransportPlan {
    /// Open TCP to the host (loopback when none) on the given port,
    /// forced to one IP version when `ip_type` is set, else with the
    /// version inferred from the address literal's own syntax.
    Tcp { ip_type: Option<IpType>, host: Option<String>, port: u16 },
    /// Open a unix domain socket at the given path.
    Unix { path: String },
}

/// The mathematical model of a [`TransportPlan`].
pub enum TransportPlanModel {
    Tcp { ip_type: Option<IpType>, host: Option<Seq<char>>, port: u16 },
    Unix { path: Seq<char> },
}

impl View for TransportPlan {
    type V = TransportPlanModel;

    open spec fn view(&self) -> TransportPlanModel {
        match self {
            TransportPlan::Tcp { ip_type, host, port } => TransportPlanModel::Tcp {
                ip_type: *ip_type,
                host: match host {
                    Some(h) => Some(h@),
                    None => None,
                },
                port: *port,
            },
            TransportPlan::Unix { path } => TransportPlanModel::Unix { path: path@ },
        }
    }
}

/// Why no transport could be selected.
#[derive(Clone, Copy, Debug, PartialEq, Eq, Structural)]
pub enum TransportError {
    /// The address names a DECnet host; DECnet is not implemented, and the
    /// failure is explicit rather than silent.
    DecNetUnsupported,
    /// A protocol/host combination outside the decision table.
    IllFormatted,
}

/// Which X server a connection call addresses: the platform default (the
/// resolved value of the `DISPLAY` environment variable, looked up by the
/// caller) or an explicit address string.
#[derive(Clone, Debug, PartialEq, Eq)]
pub enum Server {
    Default,
    Address(String),
}

/// The TCP port of a display: 6000 plus the display number, wrapping in 16
/// bits by design when the display number is large.
pub open spec fn spec_tcp_port(display: i16) -> u16 {
    ((6000 + display as int) % 0x10000) as u16
}

/// The domain-socket path of a display: the fixed directory, then `X`,
/// then the display number.
pub open spec fn spec_socket_path(display: i16) -> Seq<char> {
    "/tmp/.X11-unix/X"@ + dec_signed(display as int)
}

/// The view of an optional host field.
pub open spec fn hostname_view(h: Option<Hostname>) -> Option<HostnameModel> {
    match h {
        Some(hn) => Some(hn@),
        None => None,
    }
}

/// The decision table: every protocol/host combination maps to exactly one
/// transport-opening action. A DECnet host fails explicitly; the
/// domain-socket marker always selects a domain socket, which needs
/// platform support; an IPv6 literal always forces IPv6; otherwise the
/// protocol decides the IP version, with IPv4-or-inferred fallbacks; with
/// nothing specified, a domain socket where supported, else TCP loopback.
pub open spec fn spec_select(
    protocol: Option<Protocol>,
    hostname: Option<HostnameModel>,
    display: i16,
    unix_sockets: bool,
) -> Result<TransportPlanModel, TransportError> {
    let port = spec_tcp_port(display);
    let path = spec_socket_path(display);
    match (protocol, hostname) {
        (_, Some(HostnameModel::DecNet(_))) => Err(TransportError::DecNetUnsupported),
        (_, Some(HostnameModel::Unix)) => if unix_sockets {
            Ok(TransportPlanModel::Unix { path })
        } else {
            Err(TransportError::IllFormatted)
        },
        (_, Some(HostnameModel::Inet6(h))) => Ok(
            TransportPlanModel::Tcp { ip_type: Some(IpType::V6), host: Some(h), port },
        ),
        (Some(Protocol::Inet), Some(HostnameModel::Other(h))) => Ok(
            TransportPlanModel::Tcp { ip_type: Some(IpType::V4), host: Some(h), port },
        ),
        (Some(Protocol::Inet6), Some(HostnameModel::Other(h))) => Ok(
            TransportPlanModel::Tcp { ip_type: Some(IpType::V6), host: Some(h), port },
        ),
        (None, Some(HostnameModel::Other(h))) => Ok(
            TransportPlanModel::Tcp { ip_type: None, host: Some(h), port },
        ),
        (Some(Protocol::Tcp), Some(HostnameModel::Other(h))) => Ok(
            TransportPlanModel::Tcp { ip_type: None, host: Some(h), port },
        ),
        (Some(Protocol::Inet), None) => Ok(
            TransportPlanModel::Tcp { ip_type: Some(IpType::V4), host: None, port },
        ),
        (Some(Protocol::Inet6), None) => Ok(
            TransportPlanModel::Tcp { ip_type: Some(IpType::V6), host: None, port },
        ),
        (Some(Protocol::Tcp), None) => Ok(
            TransportPlanModel::Tcp { ip_type: None, host: None, port },
        ),
        (Some(Protocol::Unix), None) => if unix_sockets {
            Ok(TransportPlanModel::Unix { path })
        } else {
            Err(TransportError::IllFormatted)
        },
        (None, None) => if unix_sockets {
            Ok(TransportPlanModel::Unix { path })
        } else {
            Ok(TransportPlanModel::Tcp { ip_type: None, host: None, port })
        },
        (Some(Protocol::DecNet), _) => Err(TransportError::IllFormatted),
        (Some(Protocol::Unix), Some(HostnameModel::Other(_))) => Err(TransportError::IllFormatted),
    }
}

/// The TCP port of a display number: 6000 plus the display number in
/// wrapping 16-bit arithmetic.
pub fn tcp_port(display: i16) -> (r: u16)
    ensures
        r == spec_tcp_port(display),
{
    let s: i32 = 6000 + (display as i32);
    let t: i32 = if s < 0 {
        s + 65536
    } else {
        s
    };
    proof {
        let v = 6000 + display as int;
        if s < 0 {
            assert(v % 0x10000 == v + 65536) by (nonlinear_arith)
                requires
                    -26768 <= v < 0,
            ;
        } else {
            assert(v % 0x10000 == v) by (nonlinear_arith)
                requires
                    0 <= v < 65536,
            ;
        }
    }
    t as u16
}

/// The domain-socket path of a display number.
pub fn socket_path(display: i16) -> (r: String)
    ensures
        r@ == spec_socket_path(display),
{
    let mut out = String::from_str("/tmp/.X11-unix/X");
    let digits = render_i16(display);
    out.append(digits.as_str());
    out
}

/// Selects the one transport the decision table gives this protocol/host
/// combination, with `unix_sockets` saying whether the platform offers
/// domain sockets.
pub fn select_transport(
    protocol: &Option<Protocol>,
    hostname: &Option<Hostname>,
    display: i16,
    unix_sockets: bool,
) -> (r: Result<TransportPlan, TransportError>)
    ensures
        match r {
            Ok(plan) => spec_select(*protocol, hostname_view(*hostname), display, unix_sockets)
                == Ok::<TransportPlanModel, TransportError>(plan@),
            Err(e) => spec_select(*protocol, hostname_view(*hostname), display, unix_sockets)
                == Err::<TransportPlanModel, TransportError>(e),
        },
{
    match (protocol, hostname) {
        (_, Some(Hostname::DecNet(_))) => Err(TransportError::DecNetUnsupported),
        (_, Some(Hostname::Unix)) => {
            if unix_sockets {
                Ok(TransportPlan::Unix { path: socket_path(display) })
            } else {
                Err(TransportError::IllFormatted)
            }
        },
        (_, Some(Hostname::Inet6(h))) => Ok(
            TransportPlan::Tcp {
                ip_type: Some(IpType::V6),
                host: Some(h.clone()),
                port: tcp_port(display),
            },
        ),
        (Some(Protocol::Inet), Some(Hostname::Other(h))) => Ok(
            TransportPlan::Tcp {
                ip_type: Some(IpType::V4),
                host: Some(h.clone()),
                port: tcp_port(display),
            },
        ),
        (Some(Protocol::Inet6), Some(Hostname::Other(h))) => Ok(
            TransportPlan::Tcp {
                ip_type: Some(IpType::V6),
                host: Some(h.clone()),
                port: tcp_port(display),
            },
        ),
        (None, Some(Hostname::Other(h))) | (Some(Protocol::Tcp), Some(Hostname::Other(h))) => Ok(
            TransportPlan::Tcp { ip_type: None, host: Some(h.clone()), port: tcp_port(display) },
        ),
        (Some(Protocol::Inet), None) => Ok(
            TransportPlan::Tcp { ip_type: Some(IpType::V4), host: None, port: tcp_port(display) },
        ),
        (Some(Protocol::Inet6), None) => Ok(
            TransportPlan::Tcp { ip_type: Some(IpType::V6), host: None, port: tcp_port(display) },
        ),
        (Some(Protocol::Tcp), None) => Ok(
            TransportPlan::Tcp { ip_type: None, host: None, port: tcp_port(display) },
        ),
        (Some(Protocol::Unix), None) => {
            if unix_sockets {
                Ok(TransportPlan::Unix { path: socket_path(display) })
            } else {
                Err(TransportError::IllFormatted)
            }
        },
        (None, None) => {
            if unix_sockets {
                Ok(TransportPlan::Unix { path: socket_path(display) })
            } else {
                Ok(TransportPlan::Tcp { ip_type: None, host: None, port: tcp_port(display) })
            }
        },
        (Some(Protocol::DecNet), _) => Err(TransportError::IllFormatted),
        (Some(Protocol::Unix), Some(Hostname::Other(_))) => Err(TransportError::IllFormatted),
    }
}

} // verus!
