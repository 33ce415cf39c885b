pub mod auth;
pub mod exp;
pub mod ids;
pub mod mission;
pub mod user;
