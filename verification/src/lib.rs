//! A small WebFinger discovery library: validates `resource` query values,
//! resolves the configured identity-provider domain and listen port, and
//! builds the fixed set of OpenID Connect endpoint links.

pub mod config;
pub mod webfinger;
