//! A bookmarking service's core: validated inputs, password hashing, bearer
//! sessions with a fixed validity window, and the transactional write path
//! that stores a link together with its optional label.

pub mod clock;
pub mod credentials;
pub mod domain;
pub mod ids;
pub mod session;
pub mod service;
pub mod store;
