//! The handlers of the three programs that the server offers.

pub mod mount;
pub mod portmap;
pub mod v3;
