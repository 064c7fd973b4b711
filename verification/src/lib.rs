//! Transport-agnostic HTTP request-context resolver.
//!
//! Given the socket address a listener is bound to, the address of an
//! accepted peer, and a request's URI and headers, this crate derives
//! listener-, connection- and request-scoped metadata, culminating in the
//! authority (`host[:port]`, or an opaque path token for unix-domain
//! sockets) that a request logically targets.

pub mod net;
pub mod percent;
pub mod properties;
pub mod request;
