//! A verified codec and session core for the Bitcoin peer-to-peer wire
//! protocol: byte-exact serializers for the protocol's primitive and compound
//! types, the framed message envelope with its double-SHA256 checksum, and the
//! handshake / steady-state session as a pure state machine.

pub mod checksum;
pub mod codec;
pub mod messages;
pub mod net;
pub mod scanner;
pub mod session;

pub use messages::Addr;
pub use messages::AddrElement;
pub use messages::BitcoinHeader;
pub use messages::BitcoinMsg;
pub use messages::BitcoinPayload;
pub use messages::FeeFilter;
pub use messages::Inv;
pub use messages::InventoryElement;
pub use messages::InventoryKind;
pub use messages::SendCmpct;
pub use messages::Version;
pub use session::Action;
pub use session::Command;
pub use session::LogEvent;
pub use session::LogLevel;
pub use session::NetEvent;
pub use session::Session;
pub use session::SessionConfig;
pub use session::SessionState;

pub use checksum::get_check_sum;
pub use codec::BitcoinType;
pub use net::Ip;
pub use net::NetAddr;
pub use net::Services;
pub use net::SockAddr;
pub use scanner::DecodeError;
pub use scanner::Scanner;
