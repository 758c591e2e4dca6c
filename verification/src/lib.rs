//! Wire protocol, session rules and tunnel bookkeeping of a self-hosted
//! HTTP tunnel, with their contracts proved by Verus.
pub mod types;
pub mod buffers;
pub mod codec;
pub mod text;
pub mod http;
pub mod registry;
pub mod streams;
pub mod names;
pub mod session;
pub mod dashboard;
pub mod json;
pub mod tls;
