pub mod database;
pub mod jwt;
pub mod laws;
pub mod peer;
pub mod relay_server;
pub mod text;
