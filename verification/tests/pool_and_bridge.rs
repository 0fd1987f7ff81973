use std::time::Duration;

use diesel::result::{DatabaseErrorKind, Error};
use group_chat::errors::DBError;
use group_chat::pool::{ConnectionPool, DEFAULT_POOL_SIZE};
use group_chat::storage_errors::{classify_pool_failure, classify_query_failure};

#[test]
fn pool_of_one_serves_the_second_caller_only_after_release() {
    let mut p = ConnectionPool::new(1);
    assert!(p.acquire().is_ok());
    assert_eq!(p.live, 1);
    let second = p.acquire();
    match second {
        Err(DBError::ConnectionError(d)) => {
            assert_eq!(d, "timed out waiting for connection")
        }
        other => panic!("expected ConnectionError, got {:?}", other),
    }
    assert_eq!(p.live, 1);
    p.release();
    assert_eq!(p.live, 0);
    assert!(p.acquire().is_ok());
    assert!(p.live <= p.max_size);
}

#[test]
fn pool_default_size_is_explicit() {
    let p = ConnectionPool::with_default_size();
    assert_eq!(p.max_size, DEFAULT_POOL_SIZE);
    assert_eq!(p.live, 0);
}

#[test]
fn diesel_missing_row_gets_the_fixed_message() {
    let r = classify_query_failure(Error::NotFound);
    match r {
        DBError::QueryError(d) => assert_eq!(d, "Record not found"),
        other => panic!("expected QueryError, got {:?}", other),
    }
}

#[test]
fn diesel_unique_violation_is_a_constraint_violation() {
    let e = Error::DatabaseError(
        DatabaseErrorKind::UniqueViolation,
        Box::new("duplicate key value".to_string()),
    );
    let r = classify_query_failure(e);
    match r {
        DBError::ConstraintViolation(d) => assert_eq!(d, "duplicate key value"),
        other => panic!("expected ConstraintViolation, got {:?}", other),
    }
    let e = Error::DatabaseError(
        DatabaseErrorKind::ForeignKeyViolation,
        Box::new("missing parent".to_string()),
    );
    assert!(matches!(
        classify_query_failure(e),
        DBError::ConstraintViolation(_)
    ));
}

#[test]
fn diesel_non_constraint_statement_failure_is_a_query_error() {
    let e = Error::DatabaseError(
        DatabaseErrorKind::UnableToSendCommand,
        Box::new("too many binds".to_string()),
    );
    let r = classify_query_failure(e);
    match r {
        DBError::QueryError(d) => assert_eq!(d, "too many binds"),
        other => panic!("expected QueryError, got {:?}", other),
    }
}

#[test]
fn diesel_rollback_falls_back_to_transaction_error() {
    let r = classify_query_failure(Error::RollbackTransaction);
    assert!(matches!(r, DBError::TransactionError(_)));
}

struct IdleManager;

impl r2d2::ManageConnection for IdleManager {
    type Connection = ();
    type Error = std::io::Error;

    fn connect(&self) -> Result<(), std::io::Error> {
        Ok(())
    }

    fn is_valid(&self, _conn: &mut ()) -> Result<(), std::io::Error> {
        Ok(())
    }

    fn has_broken(&self, _conn: &mut ()) -> bool {
        false
    }
}

#[test]
fn exhausted_r2d2_pool_classifies_to_connection_error() {
    let pool = r2d2::Pool::builder()
        .max_size(1)
        .build(IdleManager)
        .unwrap();
    let held = pool.get().unwrap();
    let e = pool.get_timeout(Duration::from_millis(50)).unwrap_err();
    let db = classify_pool_failure(&e);
    match db {
        DBError::ConnectionError(d) => assert!(d.contains("timed out")),
        other => panic!("expected ConnectionError, got {:?}", other),
    }
    drop(held);
    assert!(pool.get_timeout(Duration::from_millis(1000)).is_ok());
}
