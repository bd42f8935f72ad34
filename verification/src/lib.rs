//! A minimal paste-sharing core: unique-identifier allocation over a
//! directory of pastes, and the request logic that maps the service's five
//! operations to storage calls and response descriptors.

pub mod clock;
pub mod codec;
pub mod config;
pub mod paste;
pub mod routes;
pub mod storage;
