//! Synchronises groups of files ("feature sets") between a local machine and a
//! repository on a Gitea server.
//!
//! The library holds the logic: the conversion between local and remote
//! paths, the parsing of the server's content listings, the requests that each
//! operation issues and the decisions taken on the answers. Performing the
//! requests and touching the local disk is left to the caller.
pub mod client;
pub mod config;
pub mod content;
pub mod error;
pub mod info;
pub mod paths;
pub mod repository;
pub mod text;
pub mod updater;
pub mod walk;
