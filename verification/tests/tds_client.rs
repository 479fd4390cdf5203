//! What a client makes of the tokens of an answer.

use mssql_tds::connection::tds_client::{
    consume_done_token, Flow, MoveStep, ResultSet, ResultSetClient, TdsClient, MAX_SEARCHED_TOKENS,
};
use mssql_tds::datatypes::column_values::ColumnValues;
use mssql_tds::datatypes::row_writer::DefaultRowWriter;
use mssql_tds::datatypes::sqldatatypes::SqlCollation;
use mssql_tds::error::{Error, ErrorKind};
use mssql_tds::io::token_stream::RowReadResult;
use mssql_tds::message::{
    RpcParameter, RpcProcs, RpcType, RpcValue, SqlRpc, TransactionIsolationLevel,
    TransactionManagementType,
};
use mssql_tds::token::{
    ColMetadataToken, DoneToken, EnvChangeToken, ErrorToken, OrderToken, ReturnStatusToken,
    ReturnValue, Tokens, DONE_MORE,
};
use std::time::Duration;

#[test]
fn timeout_to_duration_none_yields_none() {
    assert_eq!(TdsClient::timeout_to_duration(None), None);
}

#[test]
fn timeout_to_duration_zero_yields_none() {
    assert_eq!(TdsClient::timeout_to_duration(Some(0)), None);
}

#[test]
fn timeout_to_duration_positive_yields_duration() {
    assert_eq!(
        TdsClient::timeout_to_duration(Some(30)),
        Some(Duration::from_secs(30).as_nanos())
    );
}

fn client() -> TdsClient {
    TdsClient::new(SqlCollation::from_parts(0x0409, 52))
}

fn done(status: u16, cur_cmd: u16, row_count: u64) -> Tokens {
    Tokens::Done(DoneToken { status, cur_cmd, row_count })
}

fn columns() -> Tokens {
    Tokens::ColMetadata(ColMetadataToken { columns: vec![] })
}

fn failure() -> Tokens {
    Tokens::Error(ErrorToken {
        number: 208,
        state: 1,
        severity: 16,
        message: "Invalid object name".to_string(),
        server_name: "server".to_string(),
        proc_name: "proc".to_string(),
        line_number: 3,
    })
}

fn return_value(value: ColumnValues) -> Tokens {
    Tokens::ReturnValue(ReturnValue { param_name: "@h".to_string(), value })
}

fn change(sub_type: u8) -> EnvChangeToken {
    EnvChangeToken { sub_type, new_value: vec![], old_value: vec![] }
}

#[test]
fn the_remaining_time_runs_out() {
    let mut c = client();
    c.execute("select 1".to_string(), Some(2)).unwrap();
    assert_eq!(c.remaining_timeout(), Some(2_000_000_000));
    c.update_remaining_timeout(500_000_000);
    assert_eq!(c.remaining_timeout(), Some(1_500_000_000));
    c.update_remaining_timeout(9_000_000_000);
    assert_eq!(c.remaining_timeout(), Some(0));
    c.execute("select 1".to_string(), Some(0)).unwrap();
    c.update_remaining_timeout(1);
    assert_eq!(c.remaining_timeout(), None);
}

#[test]
fn rows_are_added_up_to_the_last_end() {
    let mut rows = 0;
    assert!(matches!(
        consume_done_token(&mut rows, done(DONE_MORE, 1, 3)),
        Ok(Flow::Again)
    ));
    assert!(matches!(
        consume_done_token(&mut rows, Tokens::EnvChange(change(1))),
        Ok(Flow::Capture(_))
    ));
    assert!(matches!(
        consume_done_token(&mut rows, done(0, 1, 4)),
        Ok(Flow::Over(7))
    ));
    let err = consume_done_token(&mut rows, columns()).unwrap_err();
    assert_eq!(err.kind(), ErrorKind::Usage);
    let err = consume_done_token(&mut rows, failure()).unwrap_err();
    assert_eq!(
        err,
        Error::SqlServerError {
            message: "Invalid object name".to_string(),
            state: 1,
            class: 16,
            number: 208,
            server_name: Some("server".to_string()),
            proc_name: Some("proc".to_string()),
            line_number: Some(3),
        }
    );
}

#[test]
fn a_search_finds_columns_behind_other_commands() {
    let mut c = client();
    let batch = c.execute("select 1".to_string(), None).unwrap();
    assert_eq!(batch.sql_command, "select 1");
    let mut search = TdsClient::begin_search();
    assert!(matches!(
        c.move_to_column_metadata(&mut search, done(DONE_MORE, 195, 2)),
        Ok(Flow::Again)
    ));
    assert!(!c.maybe_has_unread_rows());
    let found = match c.move_to_column_metadata(&mut search, columns()) {
        Ok(Flow::Over(found)) => found,
        _ => panic!("Expected columns"),
    };
    assert!(found.is_some());
    assert!(c.maybe_has_unread_rows());
    c.end_execute(found);
    assert!(c.has_open_batch());
    assert_eq!(c.row_count(195), 2);
    assert!(c.get_current_resultset().is_some());
    // Another request has to wait
    let usage = |e: Error| assert_eq!(e.kind(), ErrorKind::Usage);
    usage(c.execute("select 1".to_string(), None).unwrap_err());
    usage(c.execute_sp_executesql(String::new(), String::new(), vec![], None).unwrap_err());
    usage(c.execute_stored_procedure("p".to_string(), None, None, None).unwrap_err());
    usage(c.execute_sp_prepare(String::new(), String::new(), vec![], None).unwrap_err());
    usage(c.execute_sp_prepexec(String::new(), String::new(), vec![], None).unwrap_err());
    usage(c.execute_sp_unprepare(1, None).unwrap_err());
    usage(c.execute_sp_execute(1, None, None, None).unwrap_err());
    usage(c.execute_bulk_load_streaming_zerocopy(1, &vec![], None).unwrap_err());
    usage(c.begin_transaction(TransactionIsolationLevel::Snapshot, None).unwrap_err());
    usage(c.save_transaction("s".to_string()).unwrap_err());
    usage(c.commit_transaction(None, None).unwrap_err());
    usage(c.rollback_transaction(None, None).unwrap_err());
    usage(c.get_dtc_address().unwrap_err());
}

#[test]
fn a_search_ends_with_the_answer() {
    let mut c = client();
    let mut search = TdsClient::begin_search();
    let found = match c.move_to_column_metadata(&mut search, done(0, 1, 0)) {
        Ok(Flow::Over(found)) => found,
        _ => panic!("Expected the end"),
    };
    assert!(found.is_none());
    c.end_procedure(found);
    assert!(!c.has_open_batch());
    assert_eq!(c.next_row(), Ok(false));
    assert!(c.get_metadata().is_empty());
}

#[test]
fn a_search_is_given_up() {
    let mut c = client();
    let mut search = TdsClient::begin_search();
    for _ in 0..MAX_SEARCHED_TOKENS {
        assert!(matches!(
            c.move_to_column_metadata(&mut search, done(DONE_MORE, 1, 1)),
            Ok(Flow::Again)
        ));
    }
    let err = c.move_to_column_metadata(&mut search, done(DONE_MORE, 1, 1)).unwrap_err();
    assert_eq!(err.kind(), ErrorKind::Usage);
    assert_eq!(c.row_count(1), 10001);
}

#[test]
fn an_error_is_reported_after_the_rest_of_the_answer() {
    let mut c = client();
    let mut search = TdsClient::begin_search();
    assert!(matches!(
        c.move_to_column_metadata(&mut search, failure()),
        Ok(Flow::Again)
    ));
    assert!(matches!(
        c.move_to_column_metadata(&mut search, done(DONE_MORE, 1, 1)),
        Ok(Flow::Again)
    ));
    assert!(matches!(
        c.move_to_column_metadata(&mut search, return_value(ColumnValues::Int(5))),
        Ok(Flow::Again)
    ));
    let err = c.move_to_column_metadata(&mut search, done(0, 1, 1)).unwrap_err();
    assert_eq!(err.kind(), ErrorKind::SqlServer);
    assert_eq!(c.get_return_values().len(), 1);
}

#[test]
fn an_order_before_columns_is_refused() {
    let mut c = client();
    let mut search = TdsClient::begin_search();
    let order = Tokens::Order(OrderToken { columns: vec![1] });
    let err = c.move_to_column_metadata(&mut search, order).unwrap_err();
    assert_eq!(err.kind(), ErrorKind::Usage);
}

#[test]
fn counts_stop_at_the_largest() {
    let mut c = client();
    let mut search = TdsClient::begin_search();
    let _ = c.move_to_column_metadata(&mut search, done(DONE_MORE, 7, u64::MAX - 1));
    let _ = c.move_to_column_metadata(&mut search, done(DONE_MORE, 7, 5));
    assert_eq!(c.row_count(7), u64::MAX);
    assert_eq!(c.row_count(8), 0);
}

#[test]
fn rows_are_read_to_the_end_of_the_result_set() {
    let mut c = client();
    assert_eq!(c.begin_rows().unwrap_err().kind(), ErrorKind::Usage);
    c.end_execute(Some(ColMetadataToken { columns: vec![] }));
    assert!(c.begin_rows().is_ok());
    let mut w = DefaultRowWriter::new(1);
    assert!(matches!(
        c.get_next_row_into(RowReadResult::RowWritten, &mut w),
        Ok(Flow::Over(true))
    ));
    let order = Tokens::Order(OrderToken { columns: vec![1] });
    assert!(matches!(
        c.get_next_row_into(RowReadResult::Token(order), &mut w),
        Ok(Flow::Again)
    ));
    assert_eq!(
        c.get_next_row_into(RowReadResult::Token(columns()), &mut w).unwrap_err().kind(),
        ErrorKind::Usage
    );
    let status = Tokens::ReturnStatus(ReturnStatusToken { value: 0 });
    assert_eq!(
        c.get_next_row_into(RowReadResult::Token(status), &mut w).unwrap_err().kind(),
        ErrorKind::Protocol
    );
    assert_eq!(
        c.get_next_row_into(RowReadResult::Token(failure()), &mut w).unwrap_err().kind(),
        ErrorKind::SqlServer
    );
    assert!(matches!(
        c.get_next_row_into(RowReadResult::Token(done(DONE_MORE, 193, 1)), &mut w),
        Ok(Flow::Over(false))
    ));
    assert!(c.has_open_batch());
    assert!(!c.maybe_has_unread_rows());
    assert!(c.get_current_resultset().is_none());
    assert_eq!(c.move_to_next(), MoveStep::Search);
    assert!(!c.end_move(None));
    assert_eq!(c.move_to_next(), MoveStep::NoMore);
}

#[test]
fn all_rows_are_counted() {
    let mut c = client();
    c.end_execute(Some(ColMetadataToken { columns: vec![] }));
    let mut w = DefaultRowWriter::new(1);
    let mut count = 0;
    for _ in 0..3 {
        assert!(matches!(
            c.read_all_rows_into(&mut count, RowReadResult::RowWritten, &mut w),
            Ok(Flow::Again)
        ));
    }
    assert!(matches!(
        c.read_all_rows_into(&mut count, RowReadResult::Token(Tokens::EnvChange(change(1))), &mut w),
        Ok(Flow::Capture(EnvChangeToken { sub_type: 1, .. }))
    ));
    assert_eq!(
        c.read_all_rows_into(&mut count, RowReadResult::Token(columns()), &mut w)
            .unwrap_err()
            .kind(),
        ErrorKind::Protocol
    );
    assert!(matches!(
        c.read_all_rows_into(&mut count, RowReadResult::Token(done(0, 193, 3)), &mut w),
        Ok(Flow::Over(3))
    ));
    assert!(!c.has_open_batch());
    assert_eq!(c.rows_drained(), MoveStep::NoMore);
}

#[test]
fn a_closed_query_has_no_rows() {
    let mut c = client();
    assert_eq!(c.next_row().unwrap_err().kind(), ErrorKind::Usage);
    assert!(!c.begin_close());
    assert_eq!(c.next_row(), Ok(false));
    c.end_execute(Some(ColMetadataToken { columns: vec![] }));
    assert!(c.end_move(Some(ColMetadataToken { columns: vec![] })));
    assert_eq!(c.move_to_next(), MoveStep::DrainRows);
    assert!(c.begin_close());
    c.close_query();
    assert_eq!(c.next_row(), Ok(false));
    assert!(!c.has_open_batch());
    assert_eq!(c.retrieve_output_params(), Ok(None));
}

#[test]
fn a_prepared_handle_is_the_one_number_returned() {
    let mut c = client();
    assert_eq!(c.prepared_handle().unwrap_err().kind(), ErrorKind::Protocol);
    c.drain_stream(return_value(ColumnValues::Int(41)));
    assert_eq!(c.prepared_handle(), Ok(41));
    assert_eq!(c.retrieve_output_params().unwrap().unwrap().len(), 1);
    c.drain_stream(return_value(ColumnValues::Int(42)));
    assert_eq!(c.prepared_handle().unwrap_err().kind(), ErrorKind::Protocol);
    c.execute_stored_procedure("p".to_string(), None, None, None).unwrap();
    assert!(c.get_return_values().is_empty());
    c.drain_stream(return_value(ColumnValues::Null));
    assert_eq!(c.prepared_handle().unwrap_err().kind(), ErrorKind::Protocol);
    assert!(matches!(c.drain_stream(done(0, 1, 1)), Flow::Over(())));
    assert!(matches!(c.drain_stream(failure()), Flow::Again));
    assert!(matches!(c.drain_stream(Tokens::EnvChange(change(2))), Flow::Capture(_)));
}

#[test]
fn transactions_are_noted() {
    let mut c = client();
    assert!(matches!(
        c.begin_transaction(TransactionIsolationLevel::Snapshot, Some("t".to_string())),
        Ok(TransactionManagementType::Begin(p))
            if p.level == TransactionIsolationLevel::Snapshot && p.name.as_deref() == Some("t")
    ));
    assert!(matches!(
        c.save_transaction("s".to_string()),
        Ok(TransactionManagementType::Save(n)) if n == "s"
    ));
    assert!(matches!(
        c.commit_transaction(Some("t".to_string()), None),
        Ok(TransactionManagementType::Commit { name: Some(_), create_txn_params: None })
    ));
    assert!(matches!(
        c.rollback_transaction(None, None),
        Ok(TransactionManagementType::Rollback { name: None, create_txn_params: None })
    ));
    assert!(matches!(
        c.get_dtc_address(),
        Ok(TransactionManagementType::GetDtcAddress)
    ));
    assert!(!c.has_active_transaction());
    c.capture_transaction(&change(8));
    assert!(c.has_active_transaction());
    c.capture_transaction(&change(4));
    assert!(c.has_active_transaction());
    c.capture_transaction(&change(10));
    assert!(!c.has_active_transaction());
    assert!(matches!(
        c.consume_transaction_response(Tokens::EnvChange(change(9))),
        Ok(Flow::Capture(_))
    ));
    assert!(matches!(
        c.consume_transaction_response(done(DONE_MORE, 1, 1)),
        Ok(Flow::Over(()))
    ));
    let err = c.consume_transaction_response(failure()).unwrap_err();
    assert_eq!(err.kind(), ErrorKind::Protocol);
}

#[test]
fn a_failed_bulk_load_can_be_followed() {
    let mut c = client();
    c.end_execute(Some(ColMetadataToken { columns: vec![] }));
    let err = c.bulk_load_failed(Error::TypeConversionError("no date".to_string()));
    assert_eq!(err.kind(), ErrorKind::TypeConversion);
    assert!(!c.has_open_batch());
    let mut fills = |mapped| c.execute_bulk_load_streaming_zerocopy(3, &mapped, None).unwrap();
    assert_eq!(fills(vec![]), vec![0, 1, 2]);
    assert_eq!(fills(vec![2, 0]), vec![2, 0]);
}

/// The texts, handles and returned handles among the parameters.
fn described(rpc: SqlRpc) -> (RpcType, Vec<String>) {
    let mut shown = vec![];
    for p in rpc.positional_parameters.unwrap() {
        assert!(p.name.is_none());
        shown.push(match p.value {
            RpcValue::NVarcharMax(Some(s)) => s.to_utf8_string(),
            RpcValue::Int(Some(handle)) => format!("handle {}", handle),
            RpcValue::Int(None) => {
                assert!(p.by_ref);
                "handle out".to_string()
            }
            other => format!("{:?}", other),
        });
    }
    (rpc.rpc_type, shown)
}

#[test]
fn procedures_get_their_parameters_in_order() {
    let mut c = client();
    let sql = || "select @a".to_string();
    let list = || "@a int".to_string();
    let (t, p) = described(c.execute_sp_executesql(sql(), list(), vec![], None).unwrap());
    assert!(matches!(t, RpcType::ProcId(RpcProcs::ExecuteSql)));
    assert_eq!(p, vec!["select @a", "@a int"]);
    let (t, p) = described(c.execute_sp_prepare(sql(), list(), vec![], None).unwrap());
    assert!(matches!(t, RpcType::ProcId(RpcProcs::Prepare)));
    assert_eq!(p, vec!["handle out", "@a int", "select @a"]);
    let (t, p) = described(c.execute_sp_prepexec(sql(), list(), vec![], None).unwrap());
    assert!(matches!(t, RpcType::ProcId(RpcProcs::PrepExec)));
    assert_eq!(p, vec!["handle out", "@a int", "select @a"]);
    let (t, p) = described(c.execute_sp_unprepare(9, None).unwrap());
    assert!(matches!(t, RpcType::ProcId(RpcProcs::Unprepare)));
    assert_eq!(p, vec!["handle 9"]);
    let own = || Some(vec![RpcParameter::text("x".to_string())]);
    let (t, p) = described(c.execute_sp_execute(9, own(), None, None).unwrap());
    assert!(matches!(t, RpcType::ProcId(RpcProcs::Execute)));
    assert_eq!(p, vec!["handle 9", "x"]);
    let (_, p) = described(c.execute_sp_execute(9, None, None, None).unwrap());
    assert_eq!(p, vec!["handle 9"]);
    let rpc = c.execute_stored_procedure("p".to_string(), own(), None, None).unwrap();
    assert_eq!(rpc.database_collation, c.get_collation());
    let (t, p) = described(rpc);
    assert!(matches!(t, RpcType::Named(n) if n == "p"));
    assert_eq!(p, vec!["x"]);
}

#[test]
fn the_collation_is_that_of_the_database() {
    assert_eq!(client().get_collation(), SqlCollation::from_parts(0x0409, 52));
}
