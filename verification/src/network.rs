//! The reverse proxy: rewriting client requests for the upstream server and
//! the decisions taken while a client is served.

pub mod proxy;
pub mod session;
