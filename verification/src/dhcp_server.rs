//! DHCPv4 server logic: the address pool and the replies to DISCOVER and
//! REQUEST messages.

pub mod pool;
pub mod reply;
pub mod wire;
