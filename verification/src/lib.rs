//! Table TV's API: its overlay rendering, Auth0 sign-in, user and upgrade
//! rules, error answers and stream commands, each with its contract.

pub mod auth;
pub mod error;
pub mod overlay;
pub mod server;
pub mod stream;
pub mod text;
pub mod upgrade;
pub mod users;
