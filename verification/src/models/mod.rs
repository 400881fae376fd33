pub mod auth;
pub mod resource;
pub mod server;
