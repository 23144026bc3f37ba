//! Reading the routing table: which routes look wrong, and how a packet to
//! a destination leaves this host.
pub mod vpn;
pub mod diagnostics;
pub mod graph;
