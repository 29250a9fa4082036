//! Campus-network authentication client: stored credentials, the password
//! encryption the portal expects, the portal's request and reply models, and
//! the decisions the command-line front end takes around them.

pub mod client;
pub mod config;
pub mod crypto;
pub mod models;
pub mod text;
pub mod setup;
