//! Verified core of the `envsynx` command line client: argument handling,
//! URL and query handling, the browser login callback, API base URL and
//! token selection, env file selection and ordering, and every text the
//! client prints.
pub mod text;
pub mod url;
pub mod args;
pub mod help;
pub mod config;
pub mod callback;
pub mod response;
pub mod env_files;
pub mod report;
