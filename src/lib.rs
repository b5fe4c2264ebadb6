//! Installation and update logic of a self-updating application launcher:
//! launch-URI parsing, version resolution with failover, repair of version
//! directories, the fetch plan for asset archives, the hand-off to the
//! installed bootstrapper, and the launch invocation.

pub mod text;
pub mod uri;
pub mod layout;
pub mod fetch;
pub mod resolve;
pub mod relocate;
pub mod launch;
pub mod digest;
pub mod clock;
pub mod terminal;
