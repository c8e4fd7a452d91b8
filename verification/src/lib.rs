//! Discovery of username/password credentials through external "credential
//! helper" programs, following the `gitcredentials(7)` conventions: a URL is
//! decomposed into protocol and host, layered configuration is consulted for
//! helper commands and a username in precedence order, each helper command is
//! normalized into an invocable shell line, and the helpers' line-protocol
//! replies are merged field by field, first writer wins, until both a
//! username and a password are known.
//!
//! The crate holds the decision logic only: spawning the helper processes and
//! exchanging bytes with them is left to the embedding program, which feeds
//! each helper's parsed reply back into the merge.
pub mod config;
pub mod cred;
pub mod laws;
pub mod merge;
pub mod reply;
pub mod urlparse;

pub use config::Config;
pub use cred::command_line;
pub use cred::CredentialHelper;
pub use merge::Discovery;
