//! Authentication core of a multiplayer relay: challenges, authkeys, session
//! tokens, userlist policy and the decisions of the login endpoints.

pub mod policy;
pub mod text;
pub mod crypto;
pub mod keys;
pub mod token;
pub mod challenge;
pub mod ratelimit;
pub mod config;
pub mod parse;
pub mod cdn;
pub mod auth;
pub mod colors;
pub mod error;
pub mod session;
