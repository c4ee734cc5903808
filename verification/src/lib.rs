//! Core of a runtime-extensible packet-manipulation framework: named,
//! capability-scoped plugin hooks, background worker modules fed by a
//! packet-routing contract, and lock-protected shared knowledge of the
//! hosts on the network.

pub mod addr;
pub mod pairs;
mod channel;
pub mod filter;
pub mod hostmgr;
pub mod module;
pub mod hook;
pub mod naming;
pub mod framework;

pub use addr::{Ipv4, Mac, KnownPair};
pub use pairs::NetPairList;
pub use hostmgr::HostMgr;
pub use filter::{PackFilter, ETHER_HEADER_LEN};
pub use module::Module;
pub use hook::{Hook, HookOutcome, FrameworkInfo};
pub use framework::Framework;
