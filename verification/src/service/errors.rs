use vstd::prelude::*;

verus! {

/// Failures of the persistence layer, as its callers see them.
#[derive(Debug, Clone, PartialEq, Eq)]
pub enum RepositoryError {
    /// The requested row does not exist.
    NotFound,
    /// The database could not be reached or the statement failed.
    DatabaseError(String),
    /// A stored value could not be read back as its expected type.
    InvalidData(String),
}

/// Failures of token creation and verification.
#[derive(Debug, Clone, PartialEq, Eq)]
pub enum TokenServiceError {
    /// The signing step failed.
    SigningError(String),
    /// Encoding or serialising the claims failed.
    EncodingError(String),
    /// The claims are incomplete or invalid.
    ClaimsValidationError(String),
    /// A session store rejected the write.
    StorageError(String),
    /// The token's expiry instant has passed.
    TokenExpired,
    /// The token is malformed or its signature does not match.
    TokenInvalid(String),
    /// The token's content does not match the stored data.
    DataMismatch(String),
    /// A database error during verification.
    DatabaseError(String),
    /// Anything not covered above.
    UnknownError(String),
}

/// Failures of password hashing and verification.
#[derive(Debug, Clone, PartialEq, Eq)]
pub enum HashServiceError {
    FailedToHash,
    FailedToGenSalt,
    FailedToVerify,
}

/// Failures of the login service.
#[derive(Debug, Clone, PartialEq, Eq)]
pub enum AuthServiceError {
    RepositoryError(RepositoryError),
    WrongPassword,
    CreateToken(TokenServiceError),
    HashError(HashServiceError),
}

impl From<RepositoryError> for AuthServiceError {
    fn from(value: RepositoryError) -> (r: Self) {
        AuthServiceError::RepositoryError(value)
    }
}

impl vstd::std_specs::convert::FromSpecImpl<RepositoryError> for AuthServiceError {
    open spec fn obeys_from_spec() -> bool {
        true
    }

    open spec fn from_spec(v: RepositoryError) -> Self {
        AuthServiceError::RepositoryError(v)
    }
}

impl From<TokenServiceError> for AuthServiceError {
    fn from(value: TokenServiceError) -> (r: Self) {
        AuthServiceError::CreateToken(value)
    }
}

impl vstd::std_specs::convert::FromSpecImpl<TokenServiceError> for AuthServiceError {
    open spec fn obeys_from_spec() -> bool {
        true
    }

    open spec fn from_spec(v: TokenServiceError) -> Self {
        AuthServiceError::CreateToken(v)
    }
}

impl From<HashServiceError> for AuthServiceError {
    fn from(value: HashServiceError) -> (r: Self) {
        AuthServiceError::HashError(value)
    }
}

impl vstd::std_specs::convert::FromSpecImpl<HashServiceError> for AuthServiceError {
    open spec fn obeys_from_spec() -> bool {
        true
    }

    open spec fn from_spec(v: HashServiceError) -> Self {
        AuthServiceError::HashError(v)
    }
}

/// Failures of the experience service.
#[derive(Debug, Clone, PartialEq, Eq)]
pub enum ExpServiceError {
    AuthError(TokenServiceError),
    RepositoryError(RepositoryError),
    /// The stored balance is outside the range the conversion covers.
    DetectedExpOverflow(String),
}

impl From<TokenServiceError> for ExpServiceError {
    fn from(value: TokenServiceError) -> (r: Self) {
        ExpServiceError::AuthError(value)
    }
}

impl vstd::std_specs::convert::FromSpecImpl<TokenServiceError> for ExpServiceError {
    open spec fn obeys_from_spec() -> bool {
        true
    }

    open spec fn from_spec(v: TokenServiceError) -> Self {
        ExpServiceError::AuthError(v)
    }
}

impl From<RepositoryError> for ExpServiceError {
    fn from(value: RepositoryError) -> (r: Self) {
        ExpServiceError::RepositoryError(value)
    }
}

impl vstd::std_specs::convert::FromSpecImpl<RepositoryError> for ExpServiceError {
    open spec fn obeys_from_spec() -> bool {
        true
    }

    open spec fn from_spec(v: RepositoryError) -> Self {
        ExpServiceError::RepositoryError(v)
    }
}

/// Failures of the daily-mission service.
#[derive(Debug, Clone, PartialEq, Eq)]
pub enum DailyMissionServiceError {
    AuthError(TokenServiceError),
    RepositoryError(RepositoryError),
    /// The user already stores as many missions as allowed.
    OverCapacity,
    /// The submitted mission payload failed validation.
    Validate(String),
    UnknownError(String),
}

impl From<TokenServiceError> for DailyMissionServiceError {
    fn from(value: TokenServiceError) -> (r: Self) {
        DailyMissionServiceError::AuthError(value)
    }
}

impl vstd::std_specs::convert::FromSpecImpl<TokenServiceError> for DailyMissionServiceError {
    open spec fn obeys_from_spec() -> bool {
        true
    }

    open spec fn from_spec(v: TokenServiceError) -> Self {
        DailyMissionServiceError::AuthError(v)
    }
}

impl From<RepositoryError> for DailyMissionServiceError {
    fn from(value: RepositoryError) -> (r: Self) {
        DailyMissionServiceError::RepositoryError(value)
    }
}

impl vstd::std_specs::convert::FromSpecImpl<RepositoryError> for DailyMissionServiceError {
    open spec fn obeys_from_spec() -> bool {
        true
    }

    open spec fn from_spec(v: RepositoryError) -> Self {
        DailyMissionServiceError::RepositoryError(v)
    }
}

/// Failures of the user service.
#[derive(Debug, Clone, PartialEq, Eq)]
pub enum UserServiceError {
    HashError(HashServiceError),
    RepositoryError(RepositoryError),
    UserAlreadyExists,
    UserNotFound,
    TokenError(TokenServiceError),
    Validation(String),
    InvalidData,
}

impl From<HashServiceError> for UserServiceError {
    fn from(value: HashServiceError) -> (r: Self) {
        UserServiceError::HashError(value)
    }
}

impl vstd::std_specs::convert::FromSpecImpl<HashServiceError> for UserServiceError {
    open spec fn obeys_from_spec() -> bool {
        true
    }

    open spec fn from_spec(v: HashServiceError) -> Self {
        UserServiceError::HashError(v)
    }
}

impl From<RepositoryError> for UserServiceError {
    fn from(value: RepositoryError) -> (r: Self) {
        match value {
            RepositoryError::DatabaseError(e) => UserServiceError::RepositoryError(
                RepositoryError::DatabaseError(e),
            ),
            RepositoryError::NotFound => UserServiceError::UserNotFound,
            RepositoryError::InvalidData(_) => UserServiceError::InvalidData,
        }
    }
}

impl vstd::std_specs::convert::FromSpecImpl<RepositoryError> for UserServiceError {
    open spec fn obeys_from_spec() -> bool {
        true
    }

    open spec fn from_spec(v: RepositoryError) -> Self {
        match v {
            RepositoryError::DatabaseError(e) => UserServiceError::RepositoryError(
                RepositoryError::DatabaseError(e),
            ),
            RepositoryError::NotFound => UserServiceError::UserNotFound,
            RepositoryError::InvalidData(_) => UserServiceError::InvalidData,
        }
    }
}

impl From<TokenServiceError> for UserServiceError {
    fn from(value: TokenServiceError) -> (r: Self) {
        UserServiceError::TokenError(value)
    }
}

impl vstd::std_specs::convert::FromSpecImpl<TokenServiceError> for UserServiceError {
    open spec fn obeys_from_spec() -> bool {
        true
    }

    open spec fn from_spec(v: TokenServiceError) -> Self {
        UserServiceError::TokenError(v)
    }
}

} // verus!
