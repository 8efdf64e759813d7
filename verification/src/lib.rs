//! Client-side credential and configuration library for the ricochet CLI.
//!
//! The heart of the crate is the credential lifecycle: a durable multi-server
//! credential store with legacy-schema migration (`config`), a pure resolution
//! engine that turns a server reference plus an environment snapshot into a
//! concrete URL/key pair (`config`), the decision logic of the interactive
//! login flow and its OAuth callback listener (`auth`), and the HTML pages the
//! ephemeral callback listener serves (`auth_pages`). Around that sit small
//! verified helpers for version comparison and self-update bookkeeping
//! (`update`) and general string utilities (`utils`).
//!
//! Everything here is plain computation: file, network and terminal I/O live
//! with the binary that embeds this library, which hands in values (the loaded
//! store, environment variables, validation verdicts, callback parameters) and
//! carries out the returned decisions.

use vstd::prelude::*;

pub mod auth;
pub mod auth_pages;
pub mod config;
pub mod update;
pub mod urls;
pub mod utils;

verus! {

/// Output format selected for rendered command results.
#[derive(Clone, Copy, Debug, PartialEq, Eq, Structural)]
pub enum OutputFormat {
    Table,
    Json,
    Yaml,
}

} // verus!
