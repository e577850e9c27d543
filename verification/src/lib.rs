//! Packet-level logic of a network benchmark: the payload wire format shared by
//! the sender and the receiver, the IPv4 header set-up of the probe packets, and
//! the decisions that the sending and the receiving side take on each event.

pub mod clock;
pub mod compute;
pub mod encapsuler;
pub mod ipv4;
pub mod ordered;
pub mod ping;
pub mod reader;
pub mod route;
pub mod receiver;
pub mod sender;
pub mod sync;
pub mod utils;
pub mod wire;
