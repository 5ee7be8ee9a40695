//! Token helpers: encryption of the client keys and random tokens.
pub mod token;
pub mod generate_token;
pub mod init;
