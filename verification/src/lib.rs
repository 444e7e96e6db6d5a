//! Request-forwarding rules of a single-hop reverse proxy: which backend a
//! request is sent to, how its target is rewritten, and which headers the
//! proxy writes on the way in and on the way out.

pub mod text;
pub mod config;
pub mod headers;
pub mod uri;
pub mod proxy;
pub mod listener;
pub mod cmdline;
