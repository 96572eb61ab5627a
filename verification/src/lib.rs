//! Decision logic of a patch-distribution gateway: which files a client must
//! fetch to move between two versions, and how endpoints and sessions react
//! to what happens on the network.

pub mod catalog;
pub mod coordinator;
pub mod laws;
pub mod loader;
pub mod protocol;
pub mod provider;
pub mod session;
pub mod text;
