use vstd::prelude::*;
use crate::errors::{DBError, DbFailureKind, StorageFailure};

verus! {

#[verifier::external_type_specification]
#[verifier::external_body]
pub struct ExDieselError(diesel::result::Error);

#[verifier::external_type_specification]
#[verifier::external_body]
pub struct ExDatabaseErrorKind(diesel::result::DatabaseErrorKind);

#[verifier::external_type_specification]
#[verifier::external_body]
pub struct ExPoolError(r2d2::Error);

/// Relies on diesel::result::DatabaseErrorKind: tells its variants apart,
/// keeping the named constraint classes and folding the rest together.
#[verifier::external_body]
fn failure_kind_of(k: diesel::result::DatabaseErrorKind) -> (r: DbFailureKind) {
    match k {
        diesel::result::DatabaseErrorKind::UniqueViolation => DbFailureKind::UniqueViolation,
        diesel::result::DatabaseErrorKind::ForeignKeyViolation => DbFailureKind::ForeignKeyViolation,
        diesel::result::DatabaseErrorKind::CheckViolation => DbFailureKind::CheckViolation,
        diesel::result::DatabaseErrorKind::NotNullViolation => DbFailureKind::NotNullViolation,
        _ => DbFailureKind::OtherKind,
    }
}

/// Relies on diesel::result::Error: tells its variants apart (a statement
/// failure with its kind, a missing row, or anything else) and carries its
/// Display text along as the detail. Never yields a pool failure.
#[verifier::external_body]
fn storage_failure_of(e: diesel::result::Error) -> (r: StorageFailure)
    ensures
        !(r is Connection),
{
    let d = e.to_string();
    match e {
        diesel::result::Error::DatabaseError(k, _) => StorageFailure::Database(
            failure_kind_of(k),
            d,
        ),
        diesel::result::Error::NotFound => StorageFailure::RecordNotFound,
        _ => StorageFailure::Other(d),
    }
}

/// Relies on r2d2::Error's Display impl for the detail text of a pool
/// failure.
#[verifier::external_body]
fn pool_failure_detail(e: &r2d2::Error) -> String {
    e.to_string()
}

/// Classify a raw query-layer failure into the closed storage taxonomy. A
/// query failure is never a pool failure, so the result is never
/// `ConnectionError`.
pub fn classify_query_failure(e: diesel::result::Error) -> (r: DBError)
    ensures
        !(r is ConnectionError),
{
    DBError::classify(storage_failure_of(e))
}

/// Classify a pool failure: it always becomes `ConnectionError`.
pub fn classify_pool_failure(e: &r2d2::Error) -> (r: DBError)
    ensures
        r is ConnectionError,
{
    DBError::classify(StorageFailure::Connection(pool_failure_detail(e)))
}

} // verus!
