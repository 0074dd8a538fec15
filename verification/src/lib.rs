//! Client-side transport and wire-protocol layer for the X Window System
//! network protocol: parsing of display-address specifiers, selection of the
//! transport to open, the connection handshake, and the incremental binary
//! frame codec that turns a growing receive buffer into discrete frames and
//! serializes outgoing frames.

pub mod buffer;
pub mod chars;
pub mod codec;
pub mod display;
pub mod handshake;
pub mod numerals;
pub mod transport;

pub use buffer::FrameReader;
pub use codec::Cursor;
pub use codec::FrameError;
pub use codec::X11Frame;
pub use display::Display;
pub use display::DisplayName;
pub use display::DisplayNameParseError;
pub use display::Hostname;
pub use display::Protocol;
pub use handshake::AuthInfo;
pub use handshake::ConnectError;
pub use handshake::HandshakeResponse;
pub use handshake::InitConnectionRequest;
pub use transport::IpType;
pub use transport::Server;
pub use transport::TransportError;
pub use transport::TransportPlan;
