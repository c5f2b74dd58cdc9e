//! Access-control gateway in front of an RDF graph store and a blob area.
//!
//! - `auth`: the credential a request presents, constant-time comparison with a local
//!   secret, credential digests, configuration, and the session cookie issued on login.
//! - `policy`: the rank a request holds on a resource, a path or an action, from the grants
//!   the store reports; fail-closed.
//! - `query`: escaping and the graph queries of the directory resolver.
//! - `json`: reading the store's JSON result documents.
//! - `listing`: a container's children in listing order.
//! - `transfer`: naming uploads, the request size ceiling, and the records of uploads.
//! - `proxy`: which headers cross the gateway and what goes upstream.
//! - `dispatch`: route guards, access decisions, file-path resolution and statuses.
//! - `page`: the HTML pages the gateway composes.

pub mod auth;
pub mod dispatch;
pub mod json;
pub mod listing;
pub mod page;
pub mod policy;
pub mod proxy;
pub mod query;
pub mod text;
pub mod transfer;
