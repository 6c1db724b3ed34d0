//! Remote-identity resolution and provider dispatch for a command-line
//! issue helper.
//!
//! The crate parses a version-control remote address into a
//! (domain, owner, repository) triple, decides which issue tracker owns
//! that domain, and builds every URL, request payload and display line
//! that the two supported backends (GitHub and a configured GitLab
//! instance) need. All of that logic is verified; the surrounding
//! program supplies the remote string, the configuration and the
//! network transport.

pub mod config;
pub mod digits;
pub mod dispatch;
pub mod github_api;
pub mod gitlab_api;
pub mod parse;
