pub mod dns;
pub mod ip_version;
pub mod opcode;
pub mod rcode;
pub mod rr;
pub mod sockets;
pub mod edns;
