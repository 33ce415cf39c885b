use daily_mission::AuthRequest;
use daily_mission::AuthService;
use daily_mission::AuthServiceError;
use daily_mission::Claims;
use daily_mission::ExpServiceError;
use daily_mission::HashServiceError;
use daily_mission::LevelConvertImpl;
use daily_mission::LevelTable;
use daily_mission::LevelTableEntry;
use daily_mission::PasswordHashService;
use daily_mission::RepositoryError;
use daily_mission::Token;
use daily_mission::TokenService;
use daily_mission::TokenServiceError;
use daily_mission::User;
use daily_mission::UserBuilder;
use daily_mission::UserExp;
use daily_mission::UserExpRepository;
use daily_mission::UserExpService;
use daily_mission::UserId;
use daily_mission::UserRepository;

/// Hasher whose "hash" is the password prefixed, so tests control
/// matches without real hashing.
struct StubHasher;

impl PasswordHashService for StubHasher {
    fn hash_password(&self, password: &str) -> Result<String, HashServiceError> {
        Ok(format!("h:{}", password))
    }

    fn verify_password(&self, password: &str, hash_password: &str) -> Result<
        bool,
        HashServiceError,
    > {
        Ok(hash_password == format!("h:{}", password))
    }
}

/// Token service whose token is the bare user id.
struct StubTokens;

impl TokenService for StubTokens {
    fn create(&self, claims: Claims) -> Result<Token, TokenServiceError> {
        Ok(Token(claims.user_id.0))
    }

    fn verify(&self, token: Token) -> Result<UserId, TokenServiceError> {
        if token.0.is_empty() {
            Err(TokenServiceError::TokenInvalid("empty".to_string()))
        } else {
            Ok(UserId(token.0))
        }
    }
}

struct StubUsers {
    users: Vec<User>,
}

impl UserRepository for StubUsers {
    fn create(&mut self, user_builder: &UserBuilder) -> Result<UserId, RepositoryError> {
        Err(RepositoryError::DatabaseError(format!(
            "unused in these tests: {}",
            user_builder.email
        )))
    }

    fn find_by_id(&self, id: &UserId) -> Result<User, RepositoryError> {
        self.users
            .iter()
            .find(|u| u.user_id.0 == id.0)
            .cloned()
            .ok_or(RepositoryError::NotFound)
    }

    fn find_by_email(&self, email: &str) -> Result<User, RepositoryError> {
        self.users
            .iter()
            .find(|u| u.email == email)
            .cloned()
            .ok_or(RepositoryError::NotFound)
    }

    fn update(&mut self, _user: &User) -> Result<(), RepositoryError> {
        Ok(())
    }

    fn delete(&mut self, _id: &UserId) -> Result<(), RepositoryError> {
        Ok(())
    }

    fn is_exist(&self, email: &str) -> Result<bool, RepositoryError> {
        Ok(self.users.iter().any(|u| u.email == email))
    }
}

fn seeded_users() -> StubUsers {
    StubUsers {
        users: vec![UserBuilder::new()
            .user_id(UserId("u-1".to_string()))
            .user_name("ada".to_string())
            .email("ada@example.com".to_string())
            .password_hash("h:secret-pw".to_string())
            .build()],
    }
}

#[test]
fn test_login_issues_token_for_right_password() {
    let service = AuthService::new(StubHasher, StubTokens, seeded_users(), 12345);
    let token = service
        .login(AuthRequest {
            email: "ada@example.com".to_string(),
            password: "secret-pw".to_string(),
        })
        .expect("login must succeed");
    assert_eq!(token.0, "u-1");
}

#[test]
fn test_login_rejects_wrong_password() {
    let service = AuthService::new(StubHasher, StubTokens, seeded_users(), 12345);
    let result = service.login(AuthRequest {
        email: "ada@example.com".to_string(),
        password: "not-it".to_string(),
    });
    assert!(matches!(result, Err(AuthServiceError::WrongPassword)));
}

#[test]
fn test_login_reports_unknown_email() {
    let service = AuthService::new(StubHasher, StubTokens, seeded_users(), 12345);
    let result = service.login(AuthRequest {
        email: "nobody@example.com".to_string(),
        password: "secret-pw".to_string(),
    });
    assert!(matches!(
        result,
        Err(AuthServiceError::RepositoryError(RepositoryError::NotFound))
    ));
}

struct StubExp {
    points: i64,
}

impl UserExpRepository for StubExp {
    fn init_exp(&mut self, _user_id: &UserId) -> Result<(), RepositoryError> {
        Ok(())
    }

    fn find_by_user_id(&self, user_id: &UserId) -> Result<UserExp, RepositoryError> {
        Ok(UserExp { user_id: UserId(user_id.0.clone()), experience_points: self.points })
    }

    fn add_exp(&mut self, _user_id: &UserId, _additional_exp: i64) -> Result<
        (),
        RepositoryError,
    > {
        Ok(())
    }
}

fn small_converter() -> LevelConvertImpl {
    let table = LevelTable::from_entries(vec![
        LevelTableEntry { level: 1, threshold: 10 },
        LevelTableEntry { level: 2, threshold: 28 },
    ])
    .expect("table must be valid");
    LevelConvertImpl::new(table)
}

#[test]
fn test_find_with_level_converts_balance() {
    let service = UserExpService::new(StubExp { points: 12 }, small_converter(), StubTokens);
    let level = service
        .find_with_level(Token("u-9".to_string()))
        .expect("lookup must succeed");
    assert_eq!(level.user_id.0, "u-9");
    assert_eq!(level.experience_points, 12);
    assert_eq!(level.level, 2);
    assert_eq!(level.remain, Some(16));
}

#[test]
fn test_find_with_level_reports_overflowing_balance() {
    let service = UserExpService::new(
        StubExp { points: (u32::MAX as i64) + 1 },
        small_converter(),
        StubTokens,
    );
    let result = service.find_with_level(Token("u-9".to_string()));
    assert!(matches!(result, Err(ExpServiceError::DetectedExpOverflow(_))));
}

#[test]
fn test_find_with_level_requires_valid_token() {
    let service = UserExpService::new(StubExp { points: 0 }, small_converter(), StubTokens);
    let result = service.find_with_level(Token(String::new()));
    assert!(matches!(
        result,
        Err(ExpServiceError::AuthError(TokenServiceError::TokenInvalid(_)))
    ));
}
