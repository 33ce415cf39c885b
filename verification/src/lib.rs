//! Core of a gamified daily-task backend: experience-to-level conversion
//! over a staged lookup table, the wall-clock scheduling of a daily reset,
//! and the per-user reset cycle, all with verified contracts.

mod api;
mod digits;
mod entity;
mod hash;
mod idgen;
mod level;
mod reset;
mod schedule;
mod service;
mod table_parse;
mod text;
mod token;

pub use api::Error;
pub use api::TokenWrap;
pub use api::JWT;
pub use entity::auth::AuthRequest;
pub use entity::auth::Claims;
pub use entity::exp::UserExp;
pub use entity::exp::UserLevel;
pub use entity::ids::DailyMissionId;
pub use entity::ids::Token;
pub use entity::ids::UserId;
pub use entity::mission::DailyMission;
pub use entity::mission::DailyMissionBuilder;
pub use entity::mission::DailyMissionInput;
pub use entity::user::User;
pub use entity::user::UserBuilder;
pub use entity::user::UserInfo;
pub use entity::user::UserInput;
pub use hash::PasswordHashServiceImpl;
pub use idgen::UUIDServiceImpl;
pub use level::LevelConvert;
pub use reset::plan_cycle;
pub use reset::CycleReport;
pub use reset::MissionStore;
pub use service::auth_service::AuthService;
pub use service::daily_mission_service::DailyMissionService;
pub use service::errors::AuthServiceError;
pub use service::errors::DailyMissionServiceError;
pub use service::errors::ExpServiceError;
pub use service::errors::HashServiceError;
pub use service::errors::RepositoryError;
pub use service::errors::TokenServiceError;
pub use service::errors::UserServiceError;
pub use service::ports::DailyMissionRepository;
pub use service::ports::PasswordHashService;
pub use service::ports::TokenService;
pub use service::ports::UserExpRepository;
pub use service::ports::UserRepository;
pub use service::ports::UUIDService;
pub use service::user_exp_service::UserExpService;
pub use service::user_service::UserService;
pub use table_parse::parse_level_table;
pub use token::generate_key;
pub use token::TokenServiceImpl;
pub use token::TOKEN_LEEWAY_SECS;
pub use level::LevelConvertImpl;
pub use level::LevelTable;
pub use level::LevelTableEntry;
pub use level::LevelTableError;
pub use level::LEVEL_CAP;
pub use schedule::advance_seconds;
pub use schedule::next_date;
pub use schedule::next_event_date_time;
pub use schedule::plan_wait;
pub use schedule::remain;
pub use schedule::Date;
pub use schedule::DateTime;
pub use schedule::SchedulerStep;
pub use schedule::TimeOfDay;
pub use schedule::DAY_SECONDS;
