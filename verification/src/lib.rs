//! OAuth 2.0 Bearer-token failures and their `WWW-Authenticate` challenge.
//!
//! [`error::Error`] is the closed set of four failure conditions of RFC 6750.
//! [`challenge::render`] turns one of them into the value of the
//! `WWW-Authenticate` response header, or reports that the composed text
//! cannot be carried as a header value.
pub mod challenge;
pub mod error;
pub mod header;
pub mod laws;
