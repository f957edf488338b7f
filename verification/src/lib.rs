pub mod auth;
pub mod connection;
pub mod error;
pub mod messages;
pub mod params;
mod random;
