//! A local development file server's core: safe resolution of request paths
//! under a served root, live-client injection into HTML pages, classification
//! of filesystem change events into client messages, and the port fallback
//! policy.

pub mod config;
pub mod text;
pub mod paths;
pub mod resolver;
pub mod inject;
pub mod message;
pub mod events;
pub mod port;
pub mod banner;
pub mod live;
