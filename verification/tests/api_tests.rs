use dump2databend::api::{
    execution_failed, prepare_statement, DatabendArgs, ExecuteStateKind, Output,
};

fn args(default_database: Option<&str>, force_database: Option<&str>) -> DatabendArgs {
    DatabendArgs {
        query_uri: "http://127.0.0.1:8000/v1/query/".to_string(),
        user: "root".to_string(),
        password: None,
        default_database: default_database.map(|s| s.to_string()),
        force_database: force_database.map(|s| s.to_string()),
    }
}

#[test]
fn prepare_statement_trims_and_decodes() {
    let r = prepare_statement(b"  SELECT 1;  \n").unwrap();
    assert_eq!(r, "SELECT 1;");
    assert_eq!(prepare_statement(b"\n\t \r"), Some(String::new()));
    assert_eq!(prepare_statement(b"x"), Some("x".to_string()));
    // Invalid UTF-8 is rejected, not mangled.
    assert_eq!(prepare_statement(&[0xff, 0xfe, 0x20]), None);
}

#[test]
fn request_scopes_to_default_database_until_use_overrides() {
    let mut out = Output::new(args(Some("defaultdb"), None));
    let r = out.build_query_request("SELECT 1".to_string());
    assert_eq!(r.sql, "SELECT 1");
    assert_eq!(r.session.as_ref().unwrap().database.as_deref(), Some("defaultdb"));
    assert_eq!(
        r.pagination.as_ref().unwrap().wait_time_secs,
        Some(dump2databend::api::MAX_EXECUTE_DURATION_SEC)
    );
    assert!(r.session_id.is_none());
    assert!(r.string_fields.is_none());

    out.set_current_db("shop");
    let r = out.build_query_request("SELECT 2".to_string());
    assert_eq!(r.session.as_ref().unwrap().database.as_deref(), Some("shop"));
}

#[test]
fn forced_database_wins_over_use_statements() {
    let mut out = Output::new(args(Some("defaultdb"), Some("forced")));
    out.set_current_db("shop");
    let r = out.build_query_request("SELECT 1".to_string());
    assert_eq!(r.session.as_ref().unwrap().database.as_deref(), Some("forced"));
}

#[test]
fn no_database_means_no_session() {
    let out = Output::new(args(None, None));
    let r = out.build_query_request("SELECT 1".to_string());
    assert!(r.session.is_none());
}

#[test]
fn only_a_failed_execution_is_fatal() {
    assert!(execution_failed(&ExecuteStateKind::Failed));
    assert!(!execution_failed(&ExecuteStateKind::Running));
    assert!(!execution_failed(&ExecuteStateKind::Succeeded));
}
