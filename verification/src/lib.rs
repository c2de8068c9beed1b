//! Post end-to-end encrypted messages to a Matrix room from CI.

pub mod archive;
pub mod cli;
pub mod codec;
pub mod crypto;
pub mod github;
pub mod joining;
pub mod json;
pub mod login;
pub mod matrix;
pub mod message;
pub mod signing;
pub mod state;
pub mod store;
pub mod target;
pub mod text;
