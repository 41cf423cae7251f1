use vstd::prelude::*;

verus! {

/// How the database reported a failure, as far as the service tells them
/// apart.
#[derive(Debug, Clone, Copy, PartialEq, Eq, Structural)]
pub enum DbErrorKind {
    /// A write broke a uniqueness constraint.
    UniqueViolation,
    /// A lookup found no row.
    NotFound,
    /// Anything else.
    Other,
}

/// A failure of the blog service.
#[derive(Debug, Clone)]
pub enum AppError {
    RecordAlreadyExist,
    RecordNotFound,
    /// Any other database failure, with the database's own account of it.
    DatabaseError(String),
    OperationCanceled,
}

/// How a piece of work run off the request thread ended without a result.
#[derive(Debug, Clone)]
pub enum BlockingFailure {
    /// The work itself failed.
    Error(AppError),
    /// The work was cancelled before it finished.
    Canceled,
}

/// The text that describes `e` to a client.
pub open spec fn message_of(e: AppError) -> Seq<char> {
    match e {
        AppError::RecordAlreadyExist => "This recird violates a unique contraint"@,
        AppError::RecordNotFound => "This record does not exist"@,
        AppError::DatabaseError(detail) => "Database Error: "@ + detail@,
        AppError::OperationCanceled => "Running operation was cancelled"@,
    }
}

/// The HTTP status that answers `e`.
pub open spec fn status_of(e: AppError) -> u16 {
    match e {
        AppError::RecordAlreadyExist => 400,
        AppError::RecordNotFound => 404,
        _ => 500,
    }
}

impl AppError {
    /// Classifies a database failure: a broken uniqueness constraint means
    /// the record exists, a missing row that it does not, and anything else
    /// is carried with `detail`.
    pub fn from_database(kind: DbErrorKind, detail: String) -> (r: AppError)
        ensures
            kind == DbErrorKind::UniqueViolation ==> r is RecordAlreadyExist,
            kind == DbErrorKind::NotFound ==> r is RecordNotFound,
            kind == DbErrorKind::Other ==> r == AppError::DatabaseError(detail),
    {
        match kind {
            DbErrorKind::UniqueViolation => AppError::RecordAlreadyExist,
            DbErrorKind::NotFound => AppError::RecordNotFound,
            DbErrorKind::Other => AppError::DatabaseError(detail),
        }
    }

    /// The error of failed work, or `OperationCanceled` for cancelled work.
    pub fn from_blocking(e: BlockingFailure) -> (r: AppError)
        ensures
            e matches BlockingFailure::Error(inner) ==> r == inner,
            e is Canceled ==> r is OperationCanceled,
    {
        match e {
            BlockingFailure::Error(inner) => inner,
            BlockingFailure::Canceled => AppError::OperationCanceled,
        }
    }

    /// The HTTP status that answers this error.
    pub fn status_code(&self) -> (r: u16)
        ensures
            r == status_of(*self),
    {
        match self {
            AppError::RecordAlreadyExist => 400,
            AppError::RecordNotFound => 404,
            _ => 500,
        }
    }

    /// The text that describes this error to a client.
    pub fn message(&self) -> (r: String)
        ensures
            r@ == message_of(*self),
    {
        match self {
            AppError::RecordAlreadyExist => String::from_str("This recird violates a unique contraint"),
            AppError::RecordNotFound => String::from_str("This record does not exist"),
            AppError::DatabaseError(detail) => {
                let head = String::from_str("Database Error: ");
                head.concat(detail.as_str())
            },
            AppError::OperationCanceled => String::from_str("Running operation was cancelled"),
        }
    }
}

} // verus!
