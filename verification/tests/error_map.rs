use group_chat::errors::{ApiError, DBError, DbFailureKind, StorageFailure};
use group_chat::respond::StatusClass;

#[test]
fn constraint_kinds_classify_to_constraint_violation() {
    for kind in [
        DbFailureKind::UniqueViolation,
        DbFailureKind::ForeignKeyViolation,
        DbFailureKind::CheckViolation,
    ] {
        let r = DBError::classify(StorageFailure::Database(kind, "dup".to_string()));
        match r {
            DBError::ConstraintViolation(d) => assert_eq!(d, "dup"),
            other => panic!("expected ConstraintViolation, got {:?}", other),
        }
    }
}

#[test]
fn other_statement_failures_classify_to_query_error() {
    for kind in [DbFailureKind::NotNullViolation, DbFailureKind::OtherKind] {
        let r = DBError::classify(StorageFailure::Database(kind, "boom".to_string()));
        match r {
            DBError::QueryError(d) => assert_eq!(d, "boom"),
            other => panic!("expected QueryError, got {:?}", other),
        }
    }
}

#[test]
fn missing_row_folds_into_query_error_with_fixed_message() {
    let r = DBError::classify(StorageFailure::RecordNotFound);
    match r {
        DBError::QueryError(d) => assert_eq!(d, "Record not found"),
        other => panic!("expected QueryError, got {:?}", other),
    }
}

#[test]
fn pool_and_fallback_failures_classify_each_to_their_kind() {
    let c = DBError::classify(StorageFailure::Connection("pool dry".to_string()));
    assert!(matches!(c, DBError::ConnectionError(d) if d == "pool dry"));
    let t = DBError::classify(StorageFailure::Other("rollback".to_string()));
    assert!(matches!(t, DBError::TransactionError(d) if d == "rollback"));
}

#[test]
fn unique_write_failure_becomes_existed_resource() {
    let r = ApiError::of_unique_write_failure(DBError::ConstraintViolation("alice".to_string()));
    assert!(matches!(r, ApiError::ExistedResource(d) if d == "alice"));
    let other = ApiError::of_unique_write_failure(DBError::QueryError("net down".to_string()));
    assert!(matches!(
        other,
        ApiError::DatabaseError(DBError::QueryError(_))
    ));
}

#[test]
fn membership_write_failure_becomes_already_joined() {
    let r =
        ApiError::of_membership_write_failure(DBError::ConstraintViolation("pair".to_string()));
    assert!(matches!(r, ApiError::AlreadyJoined));
    let other =
        ApiError::of_membership_write_failure(DBError::TransactionError("lost".to_string()));
    assert!(matches!(
        other,
        ApiError::DatabaseError(DBError::TransactionError(_))
    ));
}

#[test]
fn new_database_query_err_wraps_the_cause() {
    let r = ApiError::new_database_query_err("bad join");
    assert!(matches!(
        r,
        ApiError::DatabaseError(DBError::QueryError(d)) if d == "bad join"
    ));
}

#[test]
fn raw_storage_errors_are_always_masked() {
    let raw = [
        DBError::QueryError("select failed on table users".to_string()),
        DBError::ConstraintViolation("constraint users_name_key".to_string()),
        DBError::ConnectionError("postgres://user@db:5432".to_string()),
        DBError::TransactionError("deadlock on table memberships".to_string()),
    ];
    for e in raw {
        let r = e.into_response();
        assert_eq!(r.status, StatusClass::ServiceUnavailable);
        assert_eq!(r.message, "Service unavailable");
        assert!(!r.message.contains("users"));
        assert!(!r.message.contains("5432"));
    }
}

#[test]
fn client_facing_kinds_show_their_message_verbatim() {
    let r = ApiError::NotFound("group 7".to_string()).into_response();
    assert_eq!(r.status, StatusClass::NotFound);
    assert_eq!(r.message, "The resource is not found: group 7");

    let r = ApiError::AlreadyJoined.into_response();
    assert_eq!(r.status, StatusClass::BadRequest);
    assert_eq!(r.message, "The user already joined the group");

    let r = ApiError::ExistedResource("alice".to_string()).into_response();
    assert_eq!(r.status, StatusClass::BadRequest);
    assert_eq!(r.message, "alice");

    let r = ApiError::Forbidden.into_response();
    assert_eq!(r.status, StatusClass::Forbidden);
    assert_eq!(
        r.message,
        "The current user doesn't have permission to access the resource"
    );

    let r = ApiError::Unauthorized.into_response();
    assert_eq!(r.status, StatusClass::Unauthorized);
    assert_eq!(
        r.message,
        "The current user doesn't have right to access the resource"
    );

    let r = ApiError::MissingField("user_id".to_string()).into_response();
    assert_eq!(r.status, StatusClass::BadRequest);
    assert_eq!(r.message, "The request is missing user_id");
}

#[test]
fn internal_detail_never_crosses_the_boundary() {
    let r = ApiError::DatabaseError(DBError::QueryError(
        "constraint users_name_key on table users".to_string(),
    ))
    .into_response();
    assert_eq!(r.status, StatusClass::ServiceUnavailable);
    assert_eq!(r.message, "Service unavailable");
    assert!(!r.message.contains("users_name_key"));

    let r = ApiError::Unknown.into_response();
    assert_eq!(r.status, StatusClass::ServiceUnavailable);
    assert_eq!(r.message, "Service unavailable");
}
