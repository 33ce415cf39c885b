use daily_mission::DailyMissionBuilder;
use daily_mission::DailyMissionId;
use daily_mission::LevelConvertImpl;
use daily_mission::LevelTable;
use daily_mission::LevelTableEntry;
use daily_mission::RepositoryError;
use daily_mission::UserBuilder;
use daily_mission::UserExp;
use daily_mission::UserId;
use daily_mission::UserInfo;
use daily_mission::UserLevel;
use daily_mission::UserServiceError;

#[test]
fn test_daily_mission_builder_builds_incomplete() {
    let mission = DailyMissionBuilder::new()
        .user_id(&UserId("u-1".to_string()))
        .mission_id(&DailyMissionId("m-1".to_string()))
        .title("stretch")
        .description(&Some("five minutes".to_string()))
        .build();
    assert_eq!(mission.user_id.0, "u-1");
    assert_eq!(mission.mission_id.0, "m-1");
    assert_eq!(mission.title, "stretch");
    assert_eq!(mission.description.as_deref(), Some("five minutes"));
    assert!(!mission.is_complete);
}

#[test]
fn test_daily_mission_builder_defaults_empty() {
    let mission = DailyMissionBuilder::new().build();
    assert_eq!(mission.user_id.0, "");
    assert_eq!(mission.mission_id.0, "");
    assert_eq!(mission.title, "");
    assert_eq!(mission.description, None);
    assert!(!mission.is_complete);
}

#[test]
fn test_user_builder_collects_fields() {
    let user = UserBuilder::new()
        .user_id(UserId("u-2".to_string()))
        .user_name("ada".to_string())
        .email("ada@example.com".to_string())
        .password_hash("$argon2id$stub".to_string())
        .build();
    assert_eq!(user.user_id.0, "u-2");
    assert_eq!(user.user_name, "ada");
    assert_eq!(user.email, "ada@example.com");
    assert_eq!(user.password_hash, "$argon2id$stub");
}

#[test]
fn test_user_info_from_user_drops_credentials() {
    let user = UserBuilder::new()
        .user_id(UserId("u-3".to_string()))
        .user_name("grace".to_string())
        .email("grace@example.com".to_string())
        .password_hash("hash".to_string())
        .build();
    let info = UserInfo::from(user);
    assert_eq!(info.user_id.0, "u-3");
    assert_eq!(info.user_name, "grace");
}

#[test]
fn test_user_level_new_derives_level() {
    let table = LevelTable::from_entries(vec![
        LevelTableEntry { level: 1, threshold: 10 },
        LevelTableEntry { level: 2, threshold: 28 },
    ])
    .expect("table must be valid");
    let converter = LevelConvertImpl::new(table);
    let exp = UserExp { user_id: UserId("u-4".to_string()), experience_points: 12 };
    let level = UserLevel::new(exp, &converter);
    assert_eq!(level.user_id.0, "u-4");
    assert_eq!(level.experience_points, 12);
    assert_eq!(level.level, 2);
    assert_eq!(level.remain, Some(16));
}

#[test]
fn test_user_service_error_from_repository_error() {
    assert_eq!(
        UserServiceError::from(RepositoryError::NotFound),
        UserServiceError::UserNotFound
    );
    assert_eq!(
        UserServiceError::from(RepositoryError::InvalidData("x".to_string())),
        UserServiceError::InvalidData
    );
    assert!(matches!(
        UserServiceError::from(RepositoryError::DatabaseError("down".to_string())),
        UserServiceError::RepositoryError(RepositoryError::DatabaseError(_))
    ));
}
