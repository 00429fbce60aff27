//! Derives a host's internet connectivity (IPv4, IPv6, both or none) from the
//! state of its network interfaces, addresses and default routes, and decides
//! when a change of that state has to be reported.

pub mod driver;
pub mod netlink;
pub mod state;
pub mod table;

pub use state::{InterfacesState, InternetConnectivity, IpFamily};
