//! What the operations of the library are for, stated of the operations themselves: each law takes
//! what a call was given and what came of it, and says how the two are related.

pub mod address;
pub mod command;
pub mod database;
pub mod jwt;
pub mod inputs;
pub mod key;
pub mod pairing;
pub mod params;
pub mod peer;
pub mod session;
pub mod text;
pub mod usage;
