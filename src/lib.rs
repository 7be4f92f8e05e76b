//! Wake-on-LAN magic packets: building the Ethernet frame that wakes a host,
//! choosing the interface to send it on, and checking SecureOn passwords.
//!
//! Everything here is pure computation with proved contracts; enumerating the
//! platform's interfaces and opening a raw channel is left to the caller.

pub mod error;
pub mod frame;
pub mod interface;
pub mod password;
pub mod wake;

pub use error::WolError;
pub use frame::frame_with_secret;
pub use interface::{resolve_interface, Interface};
pub use password::WolPassword;
pub use wake::{build_magic_frame, prepare_wake};
