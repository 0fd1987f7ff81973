use vstd::prelude::*;

verus! {

/// Which storage-level rule a rejected write ran into. `OtherKind` covers
/// every rejection that is not one of the named constraint classes.
#[derive(Debug)]
pub enum DbFailureKind {
    UniqueViolation,
    ForeignKeyViolation,
    CheckViolation,
    NotNullViolation,
    OtherKind,
}

/// A raw storage-layer failure, reduced to the facts the classifier reads:
/// the failure class and a human-readable detail string.
#[derive(Debug)]
pub enum StorageFailure {
    /// The storage engine rejected or failed a statement.
    Database(DbFailureKind, String),
    /// A lookup that expected a row found none.
    RecordNotFound,
    /// The pool could not hand out a connection.
    Connection(String),
    /// Any other failure inside a transaction boundary.
    Other(String),
}

/// The closed storage-error taxonomy every raw failure is classified into.
#[derive(Debug)]
pub enum DBError {
    QueryError(String),
    ConnectionError(String),
    ConstraintViolation(String),
    TransactionError(String),
}

/// The operation-level error taxonomy: the only one callers of the domain
/// operations ever see.
#[derive(Debug)]
pub enum ApiError {
    DatabaseError(DBError),
    NotFound(String),
    ExistedResource(String),
    AlreadyJoined,
    Forbidden,
    Unauthorized,
    MissingField(String),
    Unknown,
}

/// The kinds that stand for a violated uniqueness, foreign-key or check
/// constraint.
pub open spec fn is_constraint_kind(k: DbFailureKind) -> bool {
    k is UniqueViolation || k is ForeignKeyViolation || k is CheckViolation
}

/// The fixed message under which a missing row is folded into `QueryError`.
pub open spec fn not_found_message() -> Seq<char> {
    "Record not found"@
}

impl DBError {
    /// Total classification of a raw storage failure into the closed
    /// taxonomy: constraint rejections become `ConstraintViolation`, every
    /// other statement failure `QueryError`, a missing row `QueryError` with
    /// a fixed message, pool failures `ConnectionError`, and anything else
    /// `TransactionError`.
    pub fn classify(f: StorageFailure) -> (r: DBError)
        ensures
            (f matches StorageFailure::Database(k, d) ==> if is_constraint_kind(k) {
                r == DBError::ConstraintViolation(d)
            } else {
                r == DBError::QueryError(d)
            }),
            (f is RecordNotFound ==> (r matches DBError::QueryError(m) && m@
                == not_found_message())),
            (f matches StorageFailure::Connection(d) ==> r == DBError::ConnectionError(d)),
            (f matches StorageFailure::Other(d) ==> r == DBError::TransactionError(d)),
    {
        match f {
            StorageFailure::Database(k, d) => {
                let constraint = match k {
                    DbFailureKind::UniqueViolation => true,
                    DbFailureKind::ForeignKeyViolation => true,
                    DbFailureKind::CheckViolation => true,
                    _ => false,
                };
                if constraint {
                    DBError::ConstraintViolation(d)
                } else {
                    DBError::QueryError(d)
                }
            },
            StorageFailure::RecordNotFound => DBError::QueryError("Record not found".to_owned()),
            StorageFailure::Connection(d) => DBError::ConnectionError(d),
            StorageFailure::Other(d) => DBError::TransactionError(d),
        }
    }
}

impl ApiError {
    /// A database error that wraps a plain query failure, under the given
    /// cause text.
    pub fn new_database_query_err(cause: &str) -> (r: Self)
        ensures
            r matches ApiError::DatabaseError(DBError::QueryError(m)) && m@ == cause@,
    {
        ApiError::DatabaseError(DBError::QueryError(cause.to_owned()))
    }

    /// Domain reinterpretation of a failed write whose uniqueness constraint
    /// has a known meaning of "this resource already exists": a constraint
    /// violation becomes `ExistedResource`; every other storage failure is
    /// wrapped opaquely.
    pub fn of_unique_write_failure(e: DBError) -> (r: Self)
        ensures
            (e matches DBError::ConstraintViolation(d) ==> r == ApiError::ExistedResource(d)),
            !(e is ConstraintViolation) ==> r == ApiError::DatabaseError(e),
    {
        match e {
            DBError::ConstraintViolation(d) => ApiError::ExistedResource(d),
            other => ApiError::DatabaseError(other),
        }
    }

    /// Domain reinterpretation of a failed membership insert: the uniqueness
    /// constraint on (user, group) means the user already joined; every other
    /// storage failure is wrapped opaquely.
    pub fn of_membership_write_failure(e: DBError) -> (r: Self)
        ensures
            e is ConstraintViolation ==> r == ApiError::AlreadyJoined,
            !(e is ConstraintViolation) ==> r == ApiError::DatabaseError(e),
    {
        match e {
            DBError::ConstraintViolation(_) => ApiError::AlreadyJoined,
            other => ApiError::DatabaseError(other),
        }
    }
}

} // verus!
