//! Verified core of the ExotiaCore game backend: the keys that players and
//! game servers present, the commands that game servers send over the
//! websocket, the arguments those commands carry, the text forms of
//! numbers and reward lists, and the decisions that the HTTP layer acts on.
pub mod text;
pub mod numbers;
pub mod error;
pub mod args;
pub mod calendar;
pub mod utils;
pub mod key;
pub mod config;
pub mod servers;
pub mod commands;
pub mod auth;
pub mod users;

pub use error::ApiError;
pub use config::Config;
pub use key::{ExotiaKey, UserInfoTrait};
