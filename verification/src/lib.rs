//! Verified core of a manager for per-user TLS client credentials that are
//! issued by an external PKI tool and distributed as packaged archives.
//!
//! The crate derives the set of known users from the stems of the credential
//! files the PKI tool leaves behind, parses the tool's textual expiry report,
//! plans the multi-stage packaging pipeline (skeleton staging, ordered
//! transform scripts, per-user fan-out, all-or-nothing archive delivery), and
//! decides which post-action scripts to run. Everything that touches the
//! operating system — directory listing, subprocesses, archive writing — is
//! left to a thin unverified shell that consumes the plans and models built
//! here.

pub mod actions;
pub mod config;
pub mod expiry;
pub mod numstr;
pub mod package;
pub mod paths;
pub mod scan;
pub mod scripts;
pub mod strutil;
pub mod username;
