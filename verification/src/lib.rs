//! Verified core of an SSH-to-container proxy helper: hostname parsing,
//! target resolution rules, bundle staging decisions, remote bootstrap
//! planning, and the pure string machinery they share.

pub mod bundle;
pub mod cli;
pub mod embedded;
pub mod hostspec;
pub mod keys;
pub mod proxy;
pub mod install;
pub mod kubectl;
pub mod numfmt;
pub mod port_forward;
pub mod remote;
pub mod strutil;
