pub mod auth_service;
pub mod daily_mission_service;
pub mod errors;
pub mod ports;
pub mod user_exp_service;
pub mod user_service;
