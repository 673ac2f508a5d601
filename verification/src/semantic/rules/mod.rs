pub mod auth;
pub mod availability;
pub mod network;
pub mod persistence;
pub mod security;
pub mod transport;
