use gpjc_api::db::{
    build_statement, insert_log_params, log_entry_from_row, update_log_params, ParamCountMismatch,
    Query, CREATE_TABLE_SQL,
};

fn strings(v: &[&str]) -> Vec<String> {
    v.iter().map(|s| s.to_string()).collect()
}

#[test]
fn create_table_ignores_params() {
    assert_eq!(build_statement(Query::CreateTable, &vec![]).unwrap(), CREATE_TABLE_SQL);
    assert_eq!(build_statement(Query::CreateTable, &strings(&["x"])).unwrap(), CREATE_TABLE_SQL);
    assert!(CREATE_TABLE_SQL.starts_with("IF NOT EXISTS"));
    assert!(CREATE_TABLE_SQL.contains("IS_INITIATOR BIT"));
}

#[test]
fn insert_statement_text() {
    assert_eq!(
        build_statement(Query::InsertLog, &strings(&["17", "0"])).unwrap(),
        "INSERT INTO gpjc_logs (TRANSACTION_ID, RESULT, COMPUTATION_START, IS_INITIATOR) VALUES (17, -1, GETUTCDATE(), 0)"
    );
}

#[test]
fn update_statement_text() {
    assert_eq!(
        build_statement(Query::UpdateLog, &strings(&["5", "PROOF", "17"])).unwrap(),
        "UPDATE gpjc_logs SET RESULT = 5, COMPUTATION_END = GETUTCDATE(), PROOF = PROOF WHERE TRANSACTION_ID = 17"
    );
}

#[test]
fn get_statement_text() {
    assert_eq!(
        build_statement(Query::GetLog, &strings(&["17"])).unwrap(),
        "SELECT * FROM gpjc_logs WHERE TRANSACTION_ID = 17"
    );
}

#[test]
fn wrong_param_counts_are_refused() {
    assert_eq!(
        build_statement(Query::InsertLog, &strings(&["17"])).unwrap_err(),
        ParamCountMismatch { expected: 2, given: 1 }
    );
    assert_eq!(
        build_statement(Query::UpdateLog, &strings(&["1", "2"])).unwrap_err(),
        ParamCountMismatch { expected: 3, given: 2 }
    );
    assert_eq!(
        build_statement(Query::GetLog, &vec![]).unwrap_err(),
        ParamCountMismatch { expected: 1, given: 0 }
    );
    assert_eq!(
        build_statement(Query::GetLog, &strings(&["1", "2"])).unwrap_err(),
        ParamCountMismatch { expected: 1, given: 2 }
    );
}

#[test]
fn log_params() {
    assert_eq!(insert_log_params("9".to_string(), true), strings(&["9", "1"]));
    assert_eq!(insert_log_params("9".to_string(), false), strings(&["9", "0"]));
    assert_eq!(
        update_log_params("out".to_string(), "9".to_string()),
        strings(&["out", "PROOF", "9"])
    );
}

#[test]
fn built_params_are_accepted() {
    let insert = build_statement(Query::InsertLog, &insert_log_params("3".to_string(), true));
    assert_eq!(
        insert.unwrap(),
        "INSERT INTO gpjc_logs (TRANSACTION_ID, RESULT, COMPUTATION_START, IS_INITIATOR) VALUES (3, -1, GETUTCDATE(), 1)"
    );
    let update = build_statement(
        Query::UpdateLog,
        &update_log_params("8".to_string(), "3".to_string()),
    );
    assert!(update.is_ok());
}

#[test]
fn row_to_entry_reads_null() {
    let row = vec![
        Some("17".to_string()),
        Some("-1".to_string()),
        Some("2024-01-01".to_string()),
        None,
        Some("1".to_string()),
        Some("0".to_string()),
    ];
    let e = log_entry_from_row(&row);
    assert_eq!(e.transaction_id, "17");
    assert_eq!(e.result, "-1");
    assert_eq!(e.computation_start, "2024-01-01");
    assert_eq!(e.computation_end, "NULL");
    assert_eq!(e.is_initiator, "1");
}
