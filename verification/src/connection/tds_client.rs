//! The client: what it makes of the tokens of a server's answers. Reading the tokens is left to the
//! caller, who hands them in one by one and does what comes back.

use crate::datatypes::column_values::ColumnValues;
use crate::datatypes::metadata::ColumnMetadata;
use crate::datatypes::row_writer::RowWriter;
use crate::datatypes::sql_string::{law_units_round_trip, text_of};
use crate::datatypes::sqldatatypes::SqlCollation;
use crate::error::{Error, ErrorKind, TdsResult};
use crate::io::token_stream::RowReadResult;
use crate::message::{
    CreateTxnParams, RpcParameter, RpcProcs, RpcType, RpcValue, SqlBatch, SqlRpc,
    TransactionIsolationLevel, TransactionManagementType,
};
use crate::text::{law_utf16_round_trip, utf16_units};
use crate::token::{
    law_done_status, ColMetadataToken, DoneToken, EnvChangeToken, ErrorToken, ReturnValue, Tokens,
};
use std::collections::HashMap;
use vstd::prelude::*;
use vstd::string::StringExecFns;

verus! {

/// How many tokens are passed over in search of columns before further ends of commands count as a
/// fault.
pub const MAX_SEARCHED_TOKENS: u32 = 10000;

/// The change of a session that begins a transaction.
pub const ENV_BEGIN_TRANSACTION: u8 = 8;

/// The change of a session that commits a transaction.
pub const ENV_COMMIT_TRANSACTION: u8 = 9;

/// The change of a session that rolls a transaction back.
pub const ENV_ROLLBACK_TRANSACTION: u8 = 10;

/// What is done after a token.
#[derive(Debug)]
pub enum Flow<T> {
    /// The next token is to be read.
    Again,
    /// The session changes as this token says; then the next token is to be read.
    Capture(EnvChangeToken),
    /// It is over.
    Over(T),
}

/// The error that the server reports.
pub open spec fn server_error(t: ErrorToken) -> Error {
    Error::SqlServerError {
        message: t.message,
        state: t.state,
        class: t.severity as i32,
        number: t.number,
        server_name: Some(t.server_name),
        proc_name: Some(t.proc_name),
        line_number: Some(t.line_number as i32),
    }
}

/// The error that the server reports.
pub fn sql_server_error(t: ErrorToken) -> (e: Error)
    ensures
        e == server_error(t),
{
    Error::SqlServerError {
        message: t.message,
        state: t.state,
        class: t.severity as i32,
        number: t.number,
        server_name: Some(t.server_name),
        proc_name: Some(t.proc_name),
        line_number: Some(t.line_number as i32),
    }
}

/// The sum of two counts, or the largest count where they add up to more.
pub open spec fn saturated(a: u64, b: u64) -> u64 {
    if a + b > u64::MAX {
        u64::MAX
    } else {
        (a + b) as u64
    }
}

/// How many nanoseconds a second has.
pub const NANOS_PER_SEC: u128 = 1_000_000_000;

/// A timeout in nanoseconds. A timeout of 0 seconds means none.
pub open spec fn limit(timeout_sec: Option<u32>) -> Option<u128> {
    match timeout_sec {
        Some(secs) => if secs == 0 {
            None
        } else {
            Some((secs * NANOS_PER_SEC) as u128)
        },
        None => None,
    }
}

/// What a client knows of the answer that it reads.
#[verifier::ext_equal]
pub struct ClientView {
    /// The columns of the current result set.
    pub metadata: Option<ColMetadataToken>,
    /// How many rows each command concerned.
    pub counts: Map<u16, u64>,
    /// The output parameters that have come.
    pub return_values: Seq<ReturnValue>,
    /// Whether the current result set has been read to its end.
    pub read_till_end: bool,
    /// How many nanoseconds are left for the request, where there is a limit.
    pub timeout: Option<u128>,
    /// Whether an answer is being read.
    pub open_batch: bool,
    /// Whether a transaction was begun and not ended.
    pub transaction: bool,
    /// The collation of the database.
    pub collation: SqlCollation,
}

impl ClientView {
    /// How many rows a command concerned so far.
    pub open spec fn count(self, command: u16) -> u64 {
        if self.counts.dom().contains(command) {
            self.counts[command]
        } else {
            0
        }
    }

    /// After the rows of a command were counted.
    pub open spec fn counted(self, done: DoneToken) -> ClientView {
        ClientView {
            counts: self.counts.insert(
                done.cur_cmd,
                saturated(self.count(done.cur_cmd), done.row_count),
            ),
            ..self
        }
    }

    /// After the end of a command: the result set has been read, and where no more results follow, so
    /// has the answer.
    pub open spec fn ended(self, done: DoneToken) -> ClientView {
        ClientView {
            read_till_end: true,
            open_batch: self.open_batch && done.has_more(),
            ..self.counted(done)
        }
    }

    /// After a request was started.
    pub open spec fn requesting(self, timeout_sec: Option<u32>) -> ClientView {
        ClientView { timeout: limit(timeout_sec), ..self }
    }

    /// After a request was started that returns values: those of earlier requests are given up.
    pub open spec fn calling(self, timeout_sec: Option<u32>) -> ClientView {
        ClientView { return_values: Seq::empty(), ..self.requesting(timeout_sec) }
    }

    /// After the query was closed.
    pub open spec fn closed(self) -> ClientView {
        ClientView {
            metadata: None,
            return_values: Seq::empty(),
            read_till_end: true,
            timeout: None,
            open_batch: false,
            ..self
        }
    }

    /// After a search for the next result set.
    pub open spec fn moved(self, metadata: Option<ColMetadataToken>) -> ClientView {
        ClientView {
            metadata,
            open_batch: metadata is Some,
            read_till_end: metadata is None,
            ..self
        }
    }

    /// Whether a row is to be read where the next one is asked for; an error where there are no columns.
    pub open spec fn asked_for_row(self) -> Result<bool, ErrorKind> {
        if self.read_till_end {
            Ok(false)
        } else if self.metadata is None {
            Err(ErrorKind::Usage)
        } else {
            Ok(true)
        }
    }

    /// With one more output parameter.
    pub open spec fn returned(self, value: ReturnValue) -> ClientView {
        ClientView { return_values: self.return_values.push(value), ..self }
    }

    /// After a change of the session, which may begin or end a transaction.
    pub open spec fn changed(self, sub_type: u8) -> ClientView {
        ClientView {
            transaction: if sub_type == ENV_BEGIN_TRANSACTION {
                true
            } else if sub_type == ENV_COMMIT_TRANSACTION || sub_type == ENV_ROLLBACK_TRANSACTION {
                false
            } else {
                self.transaction
            },
            ..self
        }
    }

    /// After so many nanoseconds of the time for the request.
    pub open spec fn waited(self, elapsed: u128) -> ClientView {
        ClientView {
            timeout: match self.timeout {
                Some(t) => Some(
                    if elapsed > t {
                        0
                    } else {
                        (t - elapsed) as u128
                    },
                ),
                None => None,
            },
            ..self
        }
    }
}

/// The columns of no result set: none.
#[derive(Debug)]
struct NoColumns {
    columns: Vec<ColumnMetadata>,
}

impl NoColumns {
    #[verifier::type_invariant]
    spec fn valid(&self) -> bool {
        self.columns@.len() == 0
    }
}

/// A client of a server.
#[derive(Debug)]
pub struct TdsClient {
    current_metadata: Option<ColMetadataToken>,
    count_map: HashMap<u16, u64>,
    return_values: Vec<ReturnValue>,
    current_result_set_has_been_read_till_end: bool,
    remaining_request_timeout: Option<u128>,
    has_open_batch: bool,
    active_transaction: bool,
    database_collation: SqlCollation,
    empty_metadata: NoColumns,
}

impl View for TdsClient {
    type V = ClientView;

    closed spec fn view(&self) -> ClientView {
        ClientView {
            metadata: self.current_metadata,
            counts: self.count_map@,
            return_values: self.return_values@,
            read_till_end: self.current_result_set_has_been_read_till_end,
            timeout: self.remaining_request_timeout,
            open_batch: self.has_open_batch,
            transaction: self.active_transaction,
            collation: self.database_collation,
        }
    }
}

/// The error of a request while an answer is being read.
fn already_executing() -> (e: Error)
    ensures
        e.kind() == ErrorKind::Usage,
{
    Error::UsageError(
        String::from_str(
            "Cannot execute while another batch is executing. Read all results or close the query first.",
        ),
    )
}

/// What a token makes of waiting for the end of a command: the rows that the commands concerned are
/// added up.
pub open spec fn done_flow(rows_affected: u64, token: Tokens) -> (u64, Result<Option<u64>, ErrorKind>) {
    match token.done() {
        Some(done) => {
            let rows = (rows_affected + done.row_count) as u64;
            (
                rows,
                Ok(
                    if done.has_more() {
                        None
                    } else {
                        Some(rows)
                    },
                ),
            )
        },
        None => match token {
            Tokens::Info(_) | Tokens::EnvChange(_) => (rows_affected, Ok(None)),
            Tokens::Error(_) => (rows_affected, Err(ErrorKind::SqlServer)),
            _ => (rows_affected, Err(ErrorKind::Usage)),
        },
    }
}

/// Takes a token while the end of a command is awaited, and adds up the rows that were concerned.
pub fn consume_done_token(rows_affected: &mut u64, token: Tokens) -> (r: TdsResult<Flow<u64>>)
    requires
        token.done() matches Some(done) ==> *old(rows_affected) + done.row_count <= u64::MAX,
    ensures
        *final(rows_affected) == done_flow(*old(rows_affected), token).0,
        match done_flow(*old(rows_affected), token).1 {
            Ok(Some(rows)) => r == Ok::<Flow<u64>, Error>(Flow::Over(rows)),
            Ok(None) => r == Ok::<Flow<u64>, Error>(
                if let Tokens::EnvChange(change) = token {
                    Flow::Capture(change)
                } else {
                    Flow::Again
                },
            ),
            Err(k) => r matches Err(e) && e.kind() == k,
        },
        token matches Tokens::Error(t) ==> r == Err::<Flow<u64>, Error>(server_error(t)),
{
    match token {
        Tokens::Done(done) | Tokens::DoneProc(done) | Tokens::DoneInProc(done) => {
            *rows_affected = *rows_affected + done.row_count;
            if done.has_more() {
                Ok(Flow::Again)
            } else {
                Ok(Flow::Over(*rows_affected))
            }
        },
        Tokens::Error(error_token) => Err(sql_server_error(error_token)),
        Tokens::Info(_) => Ok(Flow::Again),
        Tokens::EnvChange(change) => Ok(Flow::Capture(change)),
        _ => Err(
            Error::UsageError(String::from_str("Unexpected token while executing bulk load")),
        ),
    }
}

/// The rows that ends of commands among tokens concerned.
pub open spec fn rows_of(tokens: Seq<Tokens>) -> nat
    decreases tokens.len(),
{
    if tokens.len() == 0 {
        0
    } else {
        rows_of(tokens.drop_last()) + (match tokens.last().done() {
            Some(done) => done.row_count as nat,
            None => 0,
        })
    }
}

/// The count after these tokens.
pub open spec fn done_run(start: u64, tokens: Seq<Tokens>) -> u64
    decreases tokens.len(),
{
    if tokens.len() == 0 {
        start
    } else {
        done_flow(done_run(start, tokens.drop_last()), tokens.last()).0
    }
}

/// As long as the count fits, it is the sum over all ends of commands, whatever came between them.
pub proof fn law_done_total(tokens: Seq<Tokens>)
    requires
        rows_of(tokens) <= u64::MAX,
    ensures
        done_run(0, tokens) == rows_of(tokens),
    decreases tokens.len(),
{
    if tokens.len() > 0 {
        law_done_total(tokens.drop_last());
    }
}

/// A search for the columns of the next result set.
#[derive(Debug)]
pub struct MetadataSearch {
    /// How many tokens have come.
    pub loop_count: u32,
    /// The error that the server reported; the rest of the answer is passed over.
    pub failure: Option<Error>,
}

/// What a token makes of a search, and of the client.
pub open spec fn search_flow(client: ClientView, loop_count: u32, token: Tokens) -> (
    ClientView,
    Result<Option<Option<ColMetadataToken>>, ErrorKind>,
) {
    match token.done() {
        Some(done) => (
            client.ended(done),
            if !done.has_more() {
                Ok(Some(None))
            } else if loop_count + 1 > MAX_SEARCHED_TOKENS {
                Err(ErrorKind::Usage)
            } else {
                Ok(None)
            },
        ),
        None => match token {
            Tokens::ColMetadata(m) => (
                ClientView { read_till_end: false, ..client },
                Ok(Some(Some(m))),
            ),
            Tokens::EnvChange(_)
            | Tokens::ReturnStatus(_)
            | Tokens::Info(_)
            | Tokens::Error(_) => (client, Ok(None)),
            Tokens::ReturnValue(value) => (client.returned(value), Ok(None)),
            _ => (client, Err(ErrorKind::Usage)),
        },
    }
}

/// What a token makes of passing over the rest of an answer, and whether that is over.
pub open spec fn drain_flow(client: ClientView, token: Tokens) -> (ClientView, bool) {
    match token {
        Tokens::ReturnValue(value) => (client.returned(value), false),
        _ => (client, token.done() matches Some(done) && !done.has_more()),
    }
}

/// What a token makes of reading a row, and of the client.
pub open spec fn row_flow(client: ClientView, token: Tokens) -> (
    ClientView,
    Result<Option<bool>, ErrorKind>,
) {
    match token.done() {
        Some(done) => (client.ended(done), Ok(Some(false))),
        None => match token {
            Tokens::Order(_) | Tokens::EnvChange(_) => (client, Ok(None)),
            Tokens::ReturnValue(value) => (client.returned(value), Ok(None)),
            Tokens::Error(_) => (client, Err(ErrorKind::SqlServer)),
            Tokens::ColMetadata(_) => (client, Err(ErrorKind::Usage)),
            _ => (client, Err(ErrorKind::Protocol)),
        },
    }
}

/// What is done after a token while rows are read.
pub open spec fn row_flow_of<T>(token: Tokens, over: Option<T>) -> Flow<T> {
    match over {
        Some(t) => Flow::Over(t),
        None => if let Tokens::EnvChange(change) = token {
            Flow::Capture(change)
        } else {
            Flow::Again
        },
    }
}

/// The error of a token while all rows are read, by the error that it is while one row is read: columns
/// are no token that may come there.
pub open spec fn all_rows_error(k: ErrorKind) -> ErrorKind {
    if k == ErrorKind::SqlServer {
        k
    } else {
        ErrorKind::Protocol
    }
}

/// What is done to come to the next result set.
#[derive(Clone, Copy, Debug, PartialEq, Eq, Structural)]
pub enum MoveStep {
    /// There is none.
    NoMore,
    /// The rows of the current result set are to be passed over first.
    DrainRows,
    /// The columns of the next one are to be searched for.
    Search,
}

impl TdsClient {
    /// A client that has sent nothing yet, for a database with this collation.
    pub fn new(database_collation: SqlCollation) -> (c: TdsClient)
        ensures
            c@ == (ClientView {
                metadata: None,
                counts: Map::empty(),
                return_values: Seq::empty(),
                read_till_end: false,
                timeout: None,
                open_batch: false,
                transaction: false,
                collation: database_collation,
            }),
    {
        broadcast use vstd::std_specs::hash::group_hash_axioms;

        TdsClient {
            current_metadata: None,
            count_map: HashMap::new(),
            return_values: Vec::new(),
            current_result_set_has_been_read_till_end: false,
            remaining_request_timeout: None,
            has_open_batch: false,
            active_transaction: false,
            database_collation,
            empty_metadata: NoColumns { columns: Vec::new() },
        }
    }

    /// The collation of the database.
    pub fn get_collation(&self) -> (c: SqlCollation)
        ensures
            c == self@.collation,
    {
        self.database_collation
    }

    /// Whether a transaction was begun and not ended.
    pub fn has_active_transaction(&self) -> (b: bool)
        ensures
            b == self@.transaction,
    {
        self.active_transaction
    }

    /// Notes whether a change of the session begins or ends a transaction.
    pub fn capture_transaction(&mut self, change: &EnvChangeToken)
        ensures
            final(self)@ == (ClientView {
                transaction: if change.sub_type == ENV_BEGIN_TRANSACTION {
                    true
                } else if change.sub_type == ENV_COMMIT_TRANSACTION || change.sub_type
                    == ENV_ROLLBACK_TRANSACTION {
                    false
                } else {
                    old(self)@.transaction
                },
                ..old(self)@
            }),
            final(self)@ == old(self)@.changed(change.sub_type),
    {
        if change.sub_type == ENV_BEGIN_TRANSACTION {
            self.active_transaction = true;
        } else if change.sub_type == ENV_COMMIT_TRANSACTION || change.sub_type
            == ENV_ROLLBACK_TRANSACTION {
            self.active_transaction = false;
        }
    }

    /// A timeout in nanoseconds. A timeout of 0 seconds means none.
    pub fn timeout_to_duration(timeout_sec: Option<u32>) -> (r: Option<u128>)
        ensures
            r == limit(timeout_sec),
    {
        match timeout_sec {
            Some(secs) => if secs == 0 {
                None
            } else {
                Some(secs as u128 * NANOS_PER_SEC)
            },
            None => None,
        }
    }

    /// Takes the time that has passed from the time that is left.
    pub fn update_remaining_timeout(&mut self, elapsed: u128)
        ensures
            final(self)@ == (ClientView {
                timeout: match old(self)@.timeout {
                    Some(t) => Some(
                        if elapsed > t {
                            0
                        } else {
                            (t - elapsed) as u128
                        },
                    ),
                    None => None,
                },
                ..old(self)@
            }),
            final(self)@ == old(self)@.waited(elapsed),
    {
        self.remaining_request_timeout = match self.remaining_request_timeout {
            Some(t) => Some(
                if elapsed > t {
                    0
                } else {
                    t - elapsed
                },
            ),
            None => None,
        };
    }

    /// How many nanoseconds are left for the request, where there is a limit.
    pub fn remaining_timeout(&self) -> (t: Option<u128>)
        ensures
            t == self@.timeout,
    {
        self.remaining_request_timeout
    }

    /// Whether an answer is being read.
    pub fn has_open_batch(&self) -> (b: bool)
        ensures
            b == self@.open_batch,
    {
        self.has_open_batch
    }

    /// How many rows a command concerned so far.
    pub fn row_count(&self, command: u16) -> (n: u64)
        ensures
            n == self@.count(command),
    {
        broadcast use vstd::std_specs::hash::group_hash_axioms;

        match self.count_map.get(&command) {
            Some(n) => *n,
            None => 0,
        }
    }

    /// Counts the rows of a command, up to the largest count.
    fn add_count(&mut self, done: &DoneToken)
        ensures
            final(self)@ == old(self)@.counted(*done),
    {
        broadcast use vstd::std_specs::hash::group_hash_axioms;

        let before: u64 = self.row_count(done.cur_cmd);
        let after: u64 = before.saturating_add(done.row_count);
        self.count_map.insert(done.cur_cmd, after);
        assert(self@ =~= old(self)@.counted(*done));
    }

    /// Starts a request. It is refused while an answer is being read.
    fn begin_request(&mut self, timeout_sec: Option<u32>) -> (r: TdsResult<()>)
        ensures
            old(self)@.open_batch ==> final(self)@ == old(self)@ && (r matches Err(e) && e.kind()
                == ErrorKind::Usage),
            !old(self)@.open_batch ==> r is Ok && final(self)@ == old(self)@.requesting(
                timeout_sec,
            ),
    {
        if self.has_open_batch {
            return Err(already_executing());
        }
        self.remaining_request_timeout = TdsClient::timeout_to_duration(timeout_sec);
        Ok(())
    }

    /// Starts a request that returns values: those of earlier requests are given up.
    fn begin_procedure(&mut self, timeout_sec: Option<u32>) -> (r: TdsResult<()>)
        ensures
            old(self)@.open_batch ==> final(self)@ == old(self)@ && (r matches Err(e) && e.kind()
                == ErrorKind::Usage),
            !old(self)@.open_batch ==> r is Ok && final(self)@ == old(self)@.calling(timeout_sec),
    {
        self.begin_request(timeout_sec)?;
        self.return_values.clear();
        assert(self@.return_values =~= Seq::<ReturnValue>::empty());
        Ok(())
    }

    /// Starts a batch. The columns of its first result set are to be searched for; what is found ends
    /// the start.
    pub fn execute(&mut self, sql_command: String, timeout_sec: Option<u32>) -> (r: TdsResult<SqlBatch>)
        ensures
            old(self)@.open_batch ==> final(self)@ == old(self)@ && (r matches Err(e) && e.kind()
                == ErrorKind::Usage),
            !old(self)@.open_batch ==> final(self)@ == old(self)@.requesting(timeout_sec) && r == Ok::<
                SqlBatch,
                Error,
            >(SqlBatch { sql_command }),
    {
        self.begin_request(timeout_sec)?;
        Ok(SqlBatch { sql_command })
    }

    /// Starts a statement with parameters, whose list is given as text too. The columns of its first
    /// result set are to be searched for.
    pub fn execute_sp_executesql(
        &mut self,
        sql: String,
        params_list: String,
        named_params: Vec<RpcParameter>,
        timeout_sec: Option<u32>,
    ) -> (r: TdsResult<SqlRpc>)
        ensures
            old(self)@.open_batch ==> final(self)@ == old(self)@ && (r matches Err(e) && e.kind()
                == ErrorKind::Usage),
            !old(self)@.open_batch ==> {
                &&& final(self)@ == old(self)@.requesting(timeout_sec)
                &&& r matches Ok(rpc)
                &&& rpc.rpc_type == RpcType::ProcId(RpcProcs::ExecuteSql)
                &&& rpc.positional_parameters matches Some(p)
                &&& p@.len() == 2 && p@[0].is_text(sql@) && p@[1].is_text(params_list@)
                &&& rpc.named_parameters == Some(named_params)
                &&& rpc.database_collation == old(self)@.collation
            },
    {
        self.begin_request(timeout_sec)?;
        let mut p: Vec<RpcParameter> = Vec::new();
        p.push(RpcParameter::text(sql));
        p.push(RpcParameter::text(params_list));
        Ok(
            SqlRpc {
                rpc_type: RpcType::ProcId(RpcProcs::ExecuteSql),
                positional_parameters: Some(p),
                named_parameters: Some(named_params),
                database_collation: self.database_collation,
            },
        )
    }

    /// Starts a procedure. The columns of its first result set are to be searched for.
    pub fn execute_stored_procedure(
        &mut self,
        stored_procedure_name: String,
        positional_parameters: Option<Vec<RpcParameter>>,
        named_parameters: Option<Vec<RpcParameter>>,
        timeout_sec: Option<u32>,
    ) -> (r: TdsResult<SqlRpc>)
        ensures
            old(self)@.open_batch ==> final(self)@ == old(self)@ && (r matches Err(e) && e.kind()
                == ErrorKind::Usage),
            !old(self)@.open_batch ==> final(self)@ == old(self)@.calling(timeout_sec) && r == Ok::<
                SqlRpc,
                Error,
            >(
                (SqlRpc {
                    rpc_type: RpcType::Named(stored_procedure_name),
                    positional_parameters,
                    named_parameters,
                    database_collation: old(self)@.collation,
                }),
            ),
    {
        self.begin_procedure(timeout_sec)?;
        Ok(
            SqlRpc {
                rpc_type: RpcType::Named(stored_procedure_name),
                positional_parameters,
                named_parameters,
                database_collation: self.database_collation,
            },
        )
    }

    /// The call that prepares a statement: the handle that is returned, the list of the statement's
    /// parameters, and the statement.
    fn preparing(
        &mut self,
        proc_id: RpcProcs,
        sql: String,
        params_list: String,
        named_params: Vec<RpcParameter>,
        timeout_sec: Option<u32>,
    ) -> (r: TdsResult<SqlRpc>)
        ensures
            old(self)@.open_batch ==> final(self)@ == old(self)@ && (r matches Err(e) && e.kind()
                == ErrorKind::Usage),
            !old(self)@.open_batch ==> {
                &&& final(self)@ == old(self)@.calling(timeout_sec)
                &&& r matches Ok(rpc)
                &&& prepares(rpc, proc_id, sql@, params_list@)
                &&& rpc.named_parameters == Some(named_params)
                &&& rpc.database_collation == old(self)@.collation
            },
    {
        self.begin_procedure(timeout_sec)?;
        let mut p: Vec<RpcParameter> = Vec::new();
        p.push(RpcParameter::output_handle());
        p.push(RpcParameter::text(params_list));
        p.push(RpcParameter::text(sql));
        Ok(
            SqlRpc {
                rpc_type: RpcType::ProcId(proc_id),
                positional_parameters: Some(p),
                named_parameters: Some(named_params),
                database_collation: self.database_collation,
            },
        )
    }

    /// Starts to prepare a statement. After the answer was passed over, its handle is there.
    pub fn execute_sp_prepare(
        &mut self,
        sql: String,
        params_list: String,
        named_params: Vec<RpcParameter>,
        timeout_sec: Option<u32>,
    ) -> (r: TdsResult<SqlRpc>)
        ensures
            old(self)@.open_batch ==> final(self)@ == old(self)@ && (r matches Err(e) && e.kind()
                == ErrorKind::Usage),
            !old(self)@.open_batch ==> {
                &&& final(self)@ == old(self)@.calling(timeout_sec)
                &&& r matches Ok(rpc)
                &&& prepares(rpc, RpcProcs::Prepare, sql@, params_list@)
                &&& rpc.named_parameters == Some(named_params)
                &&& rpc.database_collation == old(self)@.collation
            },
    {
        self.preparing(RpcProcs::Prepare, sql, params_list, named_params, timeout_sec)
    }

    /// Starts to prepare and to execute a statement. The columns of its first result set are to be
    /// searched for.
    pub fn execute_sp_prepexec(
        &mut self,
        sql: String,
        params_list: String,
        named_params: Vec<RpcParameter>,
        timeout_sec: Option<u32>,
    ) -> (r: TdsResult<SqlRpc>)
        ensures
            old(self)@.open_batch ==> final(self)@ == old(self)@ && (r matches Err(e) && e.kind()
                == ErrorKind::Usage),
            !old(self)@.open_batch ==> {
                &&& final(self)@ == old(self)@.calling(timeout_sec)
                &&& r matches Ok(rpc)
                &&& prepares(rpc, RpcProcs::PrepExec, sql@, params_list@)
                &&& rpc.named_parameters == Some(named_params)
                &&& rpc.database_collation == old(self)@.collation
            },
    {
        self.preparing(RpcProcs::PrepExec, sql, params_list, named_params, timeout_sec)
    }

    /// Starts to give up a prepared statement. The answer is to be passed over.
    pub fn execute_sp_unprepare(&mut self, handle: i32, timeout_sec: Option<u32>) -> (r: TdsResult<SqlRpc>)
        ensures
            old(self)@.open_batch ==> final(self)@ == old(self)@ && (r matches Err(e) && e.kind()
                == ErrorKind::Usage),
            !old(self)@.open_batch ==> {
                &&& final(self)@ == old(self)@.requesting(timeout_sec)
                &&& r matches Ok(rpc)
                &&& rpc.rpc_type == RpcType::ProcId(RpcProcs::Unprepare)
                &&& rpc.positional_parameters matches Some(p)
                &&& p@ == seq![RpcParameter::handle(handle)]
                &&& rpc.named_parameters is None
                &&& rpc.database_collation == old(self)@.collation
            },
    {
        self.begin_request(timeout_sec)?;
        let mut p: Vec<RpcParameter> = Vec::new();
        p.push(RpcParameter::handle(handle));
        assert(p@ =~= seq![RpcParameter::handle(handle)]);
        Ok(
            SqlRpc {
                rpc_type: RpcType::ProcId(RpcProcs::Unprepare),
                positional_parameters: Some(p),
                named_parameters: None,
                database_collation: self.database_collation,
            },
        )
    }

    /// Starts a prepared statement: its handle goes before its parameters. The columns of its first
    /// result set are to be searched for.
    pub fn execute_sp_execute(
        &mut self,
        handle: i32,
        positional_parameters: Option<Vec<RpcParameter>>,
        named_parameters: Option<Vec<RpcParameter>>,
        timeout_sec: Option<u32>,
    ) -> (r: TdsResult<SqlRpc>)
        ensures
            old(self)@.open_batch ==> final(self)@ == old(self)@ && (r matches Err(e) && e.kind()
                == ErrorKind::Usage),
            !old(self)@.open_batch ==> {
                &&& final(self)@ == old(self)@.calling(timeout_sec)
                &&& r matches Ok(rpc)
                &&& rpc.rpc_type == RpcType::ProcId(RpcProcs::Execute)
                &&& rpc.positional_parameters matches Some(p)
                &&& p@ == seq![RpcParameter::handle(handle)] + (match positional_parameters {
                    Some(own) => own@,
                    None => Seq::empty(),
                })
                &&& rpc.named_parameters == named_parameters
                &&& rpc.database_collation == old(self)@.collation
            },
    {
        self.begin_procedure(timeout_sec)?;
        let mut p: Vec<RpcParameter> = Vec::new();
        p.push(RpcParameter::handle(handle));
        match positional_parameters {
            Some(own) => {
                let mut params = own;
                p.append(&mut params);
            },
            None => {},
        }
        assert(p@ =~= seq![RpcParameter::handle(handle)] + (match positional_parameters {
            Some(own) => own@,
            None => Seq::empty(),
        }));
        Ok(
            SqlRpc {
                rpc_type: RpcType::ProcId(RpcProcs::Execute),
                positional_parameters: Some(p),
                named_parameters,
                database_collation: self.database_collation,
            },
        )
    }

    /// Starts a bulk load into a table of so many columns. Gives the columns that it fills, in order:
    /// those that are mapped to, or all of them where nothing is mapped.
    pub fn execute_bulk_load_streaming_zerocopy(
        &mut self,
        column_count: usize,
        destinations: &Vec<usize>,
        timeout_sec: Option<u32>,
    ) -> (r: TdsResult<Vec<usize>>)
        requires
            forall|i: int| 0 <= i < destinations@.len() ==> #[trigger] destinations@[i] < column_count,
        ensures
            old(self)@.open_batch ==> final(self)@ == old(self)@ && (r matches Err(e) && e.kind()
                == ErrorKind::Usage),
            !old(self)@.open_batch ==> {
                &&& final(self)@ == old(self)@.requesting(timeout_sec)
                &&& r matches Ok(v)
                &&& v@ == filled_columns(column_count, destinations@)
            },
    {
        self.begin_request(timeout_sec)?;
        Ok(mapped_columns(column_count, destinations))
    }

    /// Ends the start of a batch: with columns, its first result set is there to be read.
    pub fn end_execute(&mut self, metadata: Option<ColMetadataToken>)
        ensures
            final(self)@ == (ClientView {
                metadata: if metadata is Some {
                    metadata
                } else {
                    old(self)@.metadata
                },
                open_batch: metadata is Some,
                ..old(self)@
            }),
    {
        match metadata {
            None => {
                self.has_open_batch = false;
            },
            Some(m) => {
                self.current_metadata = Some(m);
                self.has_open_batch = true;
            },
        }
    }

    /// Ends the start of a procedure: with columns, its first result set is there to be read.
    pub fn end_procedure(&mut self, metadata: Option<ColMetadataToken>)
        ensures
            final(self)@ == (ClientView {
                metadata: if metadata is Some {
                    metadata
                } else {
                    old(self)@.metadata
                },
                open_batch: metadata is Some,
                read_till_end: metadata is None,
                ..old(self)@
            }),
    {
        match metadata {
            None => {
                self.has_open_batch = false;
                self.current_result_set_has_been_read_till_end = true;
            },
            Some(m) => {
                self.current_metadata = Some(m);
                self.current_result_set_has_been_read_till_end = false;
                self.has_open_batch = true;
            },
        }
    }

    /// Gives up a bulk load whose rows could not be written. What is wrong is handed on.
    pub fn bulk_load_failed(&mut self, original_error: Error) -> (e: Error)
        ensures
            e == original_error,
            final(self)@ == (ClientView { open_batch: false, ..old(self)@ }),
    {
        self.has_open_batch = false;
        original_error
    }

    /// Takes a token while the rest of an answer is passed over.
    pub fn drain_stream(&mut self, token: Tokens) -> (r: Flow<()>)
        ensures
            final(self)@ == drain_flow(old(self)@, token).0,
            r == (if let Tokens::EnvChange(change) = token {
                Flow::<()>::Capture(change)
            } else if drain_flow(old(self)@, token).1 {
                Flow::<()>::Over(())
            } else {
                Flow::<()>::Again
            }),
    {
        match token {
            Tokens::Done(done) | Tokens::DoneProc(done) | Tokens::DoneInProc(done) => {
                if done.has_more() {
                    Flow::Again
                } else {
                    Flow::Over(())
                }
            },
            Tokens::EnvChange(change) => Flow::Capture(change),
            Tokens::ReturnValue(value) => {
                self.return_values.push(value);
                Flow::Again
            },
            _ => Flow::Again,
        }
    }

    /// Starts a search for the columns of the next result set.
    pub fn begin_search() -> (s: MetadataSearch)
        ensures
            s.loop_count == 0,
            s.failure is None,
    {
        MetadataSearch { loop_count: 0, failure: None }
    }

    /// Takes a token in search of the columns of the next result set. Commands without rows are passed
    /// over; where no more results follow, there are none. After an error of the server the rest of the
    /// answer is passed over before the error is handed on.
    pub fn move_to_column_metadata(&mut self, search: &mut MetadataSearch, token: Tokens) -> (r: TdsResult<
        Flow<Option<ColMetadataToken>>,
    >)
        requires
            old(search).failure is None ==> old(search).loop_count < u32::MAX,
        ensures
            old(search).failure matches Some(failure) ==> {
                &&& final(self)@ == drain_flow(old(self)@, token).0
                &&& if let Tokens::EnvChange(change) = token {
                    r == Ok::<Flow<Option<ColMetadataToken>>, Error>(Flow::Capture(change)) && *final(
                        search) == *old(search)
                } else if drain_flow(old(self)@, token).1 {
                    r == Err::<Flow<Option<ColMetadataToken>>, Error>(failure)
                } else {
                    r == Ok::<Flow<Option<ColMetadataToken>>, Error>(Flow::Again) && *final(search)
                        == *old(search)
                }
            },
            old(search).failure is None ==> {
                &&& final(self)@ == search_flow(old(self)@, old(search).loop_count, token).0
                &&& final(search).loop_count == old(search).loop_count + 1
                &&& final(search).failure == (if let Tokens::Error(t) = token {
                    Some(server_error(t))
                } else {
                    None::<Error>
                })
                &&& match search_flow(old(self)@, old(search).loop_count, token).1 {
                    Ok(Some(m)) => r == Ok::<Flow<Option<ColMetadataToken>>, Error>(Flow::Over(m)),
                    Ok(None) => r == Ok::<Flow<Option<ColMetadataToken>>, Error>(
                        if let Tokens::EnvChange(change) = token {
                            Flow::Capture(change)
                        } else {
                            Flow::Again
                        },
                    ),
                    Err(k) => r matches Err(e) && e.kind() == k,
                }
            },
    {
        let mut failure: Option<Error> = None;
        std::mem::swap(&mut failure, &mut search.failure);
        match failure {
            Some(e) => match self.drain_stream(token) {
                Flow::Again => {
                    search.failure = Some(e);
                    Ok(Flow::Again)
                },
                Flow::Capture(change) => {
                    search.failure = Some(e);
                    Ok(Flow::Capture(change))
                },
                Flow::Over(_) => Err(e),
            },
            None => {
                search.loop_count = search.loop_count + 1;
                match token {
                    Tokens::ColMetadata(m) => {
                        self.current_result_set_has_been_read_till_end = false;
                        Ok(Flow::Over(Some(m)))
                    },
                    Tokens::DoneInProc(done) | Tokens::DoneProc(done) | Tokens::Done(done) => {
                        self.add_count(&done);
                        self.current_result_set_has_been_read_till_end = true;
                        if !done.has_more() {
                            self.has_open_batch = false;
                            return Ok(Flow::Over(None));
                        }
                        if search.loop_count > MAX_SEARCHED_TOKENS {
                            return Err(
                                Error::UsageError(
                                    String::from_str(
                                        "Too many Done tokens with has_more=true without ColMetadata",
                                    ),
                                ),
                            );
                        }
                        Ok(Flow::Again)
                    },
                    Tokens::EnvChange(change) => Ok(Flow::Capture(change)),
                    Tokens::ReturnValue(value) => {
                        self.return_values.push(value);
                        Ok(Flow::Again)
                    },
                    Tokens::ReturnStatus(_) | Tokens::Info(_) => Ok(Flow::Again),
                    Tokens::Error(error_token) => {
                        search.failure = Some(sql_server_error(error_token));
                        Ok(Flow::Again)
                    },
                    _ => Err(
                        Error::UsageError(
                            String::from_str("Unexpected token while moving to column metadata"),
                        ),
                    ),
                }
            },
        }
    }

    /// Says whether rows can be read: only where there are columns.
    pub fn begin_rows(&self) -> (r: TdsResult<&ColMetadataToken>)
        ensures
            match self@.metadata {
                Some(m) => r matches Ok(x) && *x == m,
                None => r matches Err(e) && e.kind() == ErrorKind::Usage,
            },
    {
        match &self.current_metadata {
            Some(m) => Ok(m),
            None => Err(
                Error::UsageError(
                    String::from_str(
                        "No metadata found while fetching the next row. Have you called the execute method or was the query supposed to return resultset?",
                    ),
                ),
            ),
        }
    }

    /// Takes a token while the next row is read. It is over with true after a row, whose end the sink is
    /// told, and with false at the end of the result set.
    pub fn get_next_row_into<W: RowWriter>(&mut self, result: RowReadResult, writer: &mut W) -> (r:
        TdsResult<Flow<bool>>)
        ensures
            match result {
                RowReadResult::RowWritten => {
                    &&& W::ended(*old(writer), *final(writer))
                    &&& final(self)@ == old(self)@
                    &&& r == Ok::<Flow<bool>, Error>(Flow::Over(true))
                },
                RowReadResult::Token(token) => {
                    &&& *final(writer) == *old(writer)
                    &&& final(self)@ == row_flow(old(self)@, token).0
                    &&& match row_flow(old(self)@, token).1 {
                        Ok(over) => r == Ok::<Flow<bool>, Error>(row_flow_of(token, over)),
                        Err(k) => r matches Err(e) && e.kind() == k,
                    }
                    &&& token matches Tokens::Error(t) ==> r == Err::<Flow<bool>, Error>(
                        server_error(t),
                    )
                },
            },
    {
        match result {
            RowReadResult::RowWritten => {
                writer.end_row();
                Ok(Flow::Over(true))
            },
            RowReadResult::Token(token) => match token {
                Tokens::DoneInProc(done) | Tokens::DoneProc(done) | Tokens::Done(done) => {
                    self.add_count(&done);
                    self.current_result_set_has_been_read_till_end = true;
                    if !done.has_more() {
                        self.has_open_batch = false;
                    }
                    Ok(Flow::Over(false))
                },
                Tokens::Order(_) => Ok(Flow::Again),
                Tokens::EnvChange(change) => Ok(Flow::Capture(change)),
                Tokens::ReturnValue(value) => {
                    self.return_values.push(value);
                    Ok(Flow::Again)
                },
                Tokens::Error(error_token) => Err(sql_server_error(error_token)),
                Tokens::ColMetadata(_) => Err(
                    Error::UsageError(
                        String::from_str(
                            "Unexpected ColMetadata token encountered while reading rows. This typically indicates the API was not used correctly - you may need to call move_to_next() to advance to the next result set.",
                        ),
                    ),
                ),
                _ => Err(
                    Error::ProtocolError(
                        String::from_str("Unexpected token while finding the next row"),
                    ),
                ),
            },
        }
    }

    /// Takes a token while all rows are read. It is over at the end of the result set, with the count of
    /// the rows.
    pub fn read_all_rows_into<W: RowWriter>(
        &mut self,
        row_count: &mut usize,
        result: RowReadResult,
        writer: &mut W,
    ) -> (r: TdsResult<Flow<usize>>)
        requires
            result is RowWritten ==> *old(row_count) < usize::MAX,
        ensures
            match result {
                RowReadResult::RowWritten => {
                    &&& W::ended(*old(writer), *final(writer))
                    &&& final(self)@ == old(self)@
                    &&& *final(row_count) == *old(row_count) + 1
                    &&& r == Ok::<Flow<usize>, Error>(Flow::Again)
                },
                RowReadResult::Token(token) => {
                    &&& *final(writer) == *old(writer)
                    &&& *final(row_count) == *old(row_count)
                    &&& final(self)@ == row_flow(old(self)@, token).0
                    &&& match row_flow(old(self)@, token).1 {
                        Ok(over) => r == Ok::<Flow<usize>, Error>(
                            row_flow_of(
                                token,
                                match over {
                                    Some(_) => Some(*old(row_count)),
                                    None => None,
                                },
                            ),
                        ),
                        Err(k) => r matches Err(e) && e.kind() == all_rows_error(k),
                    }
                    &&& token matches Tokens::Error(t) ==> r == Err::<Flow<usize>, Error>(
                        server_error(t),
                    )
                },
            },
    {
        match result {
            RowReadResult::RowWritten => {
                writer.end_row();
                *row_count = *row_count + 1;
                Ok(Flow::Again)
            },
            RowReadResult::Token(token) => match token {
                Tokens::DoneInProc(done) | Tokens::DoneProc(done) | Tokens::Done(done) => {
                    self.add_count(&done);
                    self.current_result_set_has_been_read_till_end = true;
                    if !done.has_more() {
                        self.has_open_batch = false;
                    }
                    Ok(Flow::Over(*row_count))
                },
                Tokens::Order(_) => Ok(Flow::Again),
                Tokens::EnvChange(change) => Ok(Flow::Capture(change)),
                Tokens::ReturnValue(value) => {
                    self.return_values.push(value);
                    Ok(Flow::Again)
                },
                Tokens::Error(error_token) => Err(sql_server_error(error_token)),
                _ => Err(
                    Error::ProtocolError(String::from_str("Unexpected token while reading rows")),
                ),
            },
        }
    }

    /// Takes a token while the answer to a transaction request is awaited. The end of a command ends it,
    /// whether more follows or not.
    pub fn consume_transaction_response(&mut self, token: Tokens) -> (r: TdsResult<Flow<()>>)
        ensures
            match token.done() {
                Some(done) => final(self)@ == old(self)@.counted(done) && r == Ok::<Flow<()>, Error>(
                    Flow::Over(()),
                ),
                None => final(self)@ == old(self)@ && match token {
                    Tokens::EnvChange(change) => r == Ok::<Flow<()>, Error>(Flow::Capture(change)),
                    _ => r matches Err(e) && e.kind() == ErrorKind::Protocol,
                },
            },
    {
        match token {
            Tokens::DoneInProc(done) | Tokens::DoneProc(done) | Tokens::Done(done) => {
                self.add_count(&done);
                Ok(Flow::Over(()))
            },
            Tokens::EnvChange(change) => Ok(Flow::Capture(change)),
            _ => Err(
                Error::ProtocolError(
                    String::from_str("Unexpected token while reading transaction request response"),
                ),
            ),
        }
    }

    /// The request that begins a transaction. It is refused while an answer is being read.
    pub fn begin_transaction(
        &self,
        isolation_level: TransactionIsolationLevel,
        name: Option<String>,
    ) -> (r: TdsResult<TransactionManagementType>)
        ensures
            self@.open_batch ==> (r matches Err(e) && e.kind() == ErrorKind::Usage),
            !self@.open_batch ==> r == Ok::<TransactionManagementType, Error>(
                TransactionManagementType::Begin((CreateTxnParams { level: isolation_level, name })),
            ),
    {
        if self.has_open_batch {
            return Err(
                Error::UsageError(
                    String::from_str("Cannot begin transaction while another batch is executing."),
                ),
            );
        }
        Ok(TransactionManagementType::Begin(CreateTxnParams { level: isolation_level, name }))
    }

    /// The request that marks a point to roll back to. It is refused while an answer is being read.
    pub fn save_transaction(&self, name: String) -> (r: TdsResult<TransactionManagementType>)
        ensures
            self@.open_batch ==> (r matches Err(e) && e.kind() == ErrorKind::Usage),
            !self@.open_batch ==> r == Ok::<TransactionManagementType, Error>(
                TransactionManagementType::Save(name),
            ),
    {
        if self.has_open_batch {
            return Err(
                Error::UsageError(
                    String::from_str("Cannot save transaction while another batch is executing."),
                ),
            );
        }
        Ok(TransactionManagementType::Save(name))
    }

    /// The request that commits a transaction, and may begin another. It is refused
    /// while an answer is being read.
    pub fn commit_transaction(
        &self,
        name: Option<String>,
        create_txn_params: Option<CreateTxnParams>,
    ) -> (r: TdsResult<TransactionManagementType>)
        ensures
            self@.open_batch ==> (r matches Err(e) && e.kind() == ErrorKind::Usage),
            !self@.open_batch ==> r == Ok::<TransactionManagementType, Error>(
                (TransactionManagementType::Commit { name, create_txn_params }),
            ),
    {
        if self.has_open_batch {
            return Err(
                Error::UsageError(
                    String::from_str("Cannot commit transaction while another batch is executing."),
                ),
            );
        }
        Ok(TransactionManagementType::Commit { name, create_txn_params })
    }

    /// The request that rolls a transaction back, and may begin another. It is refused
    /// while an answer is being read.
    pub fn rollback_transaction(
        &self,
        name: Option<String>,
        create_txn_params: Option<CreateTxnParams>,
    ) -> (r: TdsResult<TransactionManagementType>)
        ensures
            self@.open_batch ==> (r matches Err(e) && e.kind() == ErrorKind::Usage),
            !self@.open_batch ==> r == Ok::<TransactionManagementType, Error>(
                (TransactionManagementType::Rollback { name, create_txn_params }),
            ),
    {
        if self.has_open_batch {
            return Err(
                Error::UsageError(
                    String::from_str("Cannot rollback transaction while another batch is executing."),
                ),
            );
        }
        Ok(TransactionManagementType::Rollback { name, create_txn_params })
    }

    /// The request for the address of the coordinator of transactions, which is answered by a result set. It
    /// is refused while an answer is being read.
    pub fn get_dtc_address(&self) -> (r: TdsResult<TransactionManagementType>)
        ensures
            self@.open_batch ==> (r matches Err(e) && e.kind() == ErrorKind::Usage),
            !self@.open_batch ==> r == Ok::<TransactionManagementType, Error>(
                TransactionManagementType::GetDtcAddress,
            ),
    {
        if self.has_open_batch {
            return Err(
                Error::UsageError(
                    String::from_str("Cannot get DTC address while another batch is executing."),
                ),
            );
        }
        Ok(TransactionManagementType::GetDtcAddress)
    }

    /// The output parameters that have come.
    pub fn get_return_values(&self) -> (v: &Vec<ReturnValue>)
        ensures
            v@ == self@.return_values,
    {
        &self.return_values
    }

    /// The output parameters that have come, where there are any.
    pub fn retrieve_output_params(&self) -> (r: TdsResult<Option<&Vec<ReturnValue>>>)
        ensures
            self@.return_values.len() == 0 ==> r == Ok::<Option<&Vec<ReturnValue>>, Error>(None),
            self@.return_values.len() > 0 ==> (r matches Ok(Some(v)) && v@ == self@.return_values),
    {
        if self.return_values.len() == 0 {
            Ok(None)
        } else {
            Ok(Some(&self.return_values))
        }
    }

    /// The handle of a statement that was prepared: the one value that was returned, a number.
    pub fn prepared_handle(&self) -> (r: TdsResult<i32>)
        ensures
            ({
                let values = self@.return_values;
                if values.len() == 1 && values[0].value is Int {
                    r == Ok::<i32, Error>(values[0].value->Int_0)
                } else {
                    r matches Err(e) && e.kind() == ErrorKind::Protocol
                }
            }),
    {
        if self.return_values.len() == 1 {
            match &self.return_values[0].value {
                ColumnValues::Int(handle) => Ok(*handle),
                _ => Err(Error::ProtocolError(String::from_str("Expected an integer value"))),
            }
        } else {
            Err(Error::ProtocolError(String::from_str("Expected exactly one output parameter")))
        }
    }

    /// What is done after the rows of the current result set were passed over.
    pub fn rows_drained(&self) -> (s: MoveStep)
        ensures
            s == (if self@.open_batch {
                MoveStep::Search
            } else {
                MoveStep::NoMore
            }),
    {
        if self.has_open_batch {
            MoveStep::Search
        } else {
            MoveStep::NoMore
        }
    }

    /// Ends a search for the next result set. Gives whether there is one.
    pub fn end_move(&mut self, metadata: Option<ColMetadataToken>) -> (b: bool)
        ensures
            b == metadata is Some,
            final(self)@ == old(self)@.moved(metadata),
    {
        match metadata {
            Some(m) => {
                self.current_metadata = Some(m);
                self.has_open_batch = true;
                self.current_result_set_has_been_read_till_end = false;
                true
            },
            None => {
                self.has_open_batch = false;
                self.current_metadata = None;
                self.current_result_set_has_been_read_till_end = true;
                false
            },
        }
    }

    /// Starts to close a query. Gives whether there are results to be passed over. Where there are none,
    /// the query is closed.
    pub fn begin_close(&mut self) -> (b: bool)
        ensures
            b == old(self)@.open_batch,
            b ==> final(self)@ == old(self)@,
            !b ==> final(self)@ == (ClientView { read_till_end: true, ..old(self)@ }),
    {
        if !self.has_open_batch {
            self.current_result_set_has_been_read_till_end = true;
            return false;
        }
        true
    }

    /// Closes a query whose results have all been passed over.
    pub fn close_query(&mut self)
        ensures
            final(self)@ == old(self)@.closed(),
    {
        self.current_metadata = None;
        self.return_values.clear();
        self.remaining_request_timeout = None;
        self.has_open_batch = false;
        self.current_result_set_has_been_read_till_end = true;
        assert(self@.return_values =~= Seq::<ReturnValue>::empty());
    }
}

/// The result set that a client reads.
pub trait ResultSet {
    /// The columns.
    spec fn columns(&self) -> Seq<ColumnMetadata>;

    /// Whether there may be rows to read.
    spec fn unread(&self) -> bool;

    /// The columns.
    fn get_metadata(&self) -> (v: &Vec<ColumnMetadata>)
        ensures
            v@ == self.columns(),
    ;

    /// Whether there may be rows to read.
    fn maybe_has_unread_rows(&self) -> (b: bool)
        ensures
            b == self.unread(),
    ;

    /// Says whether a row is to be read where the next one is asked for.
    fn next_row(&self) -> (r: TdsResult<bool>)
        ensures
            !self.unread() ==> r == Ok::<bool, Error>(false),
    ;
}

impl ResultSet for TdsClient {
    closed spec fn columns(&self) -> Seq<ColumnMetadata> {
        match self@.metadata {
            Some(m) => m.columns@,
            None => Seq::empty(),
        }
    }

    open spec fn unread(&self) -> bool {
        !self@.read_till_end
    }

    /// The columns; none where no result set is there.
    fn get_metadata(&self) -> (v: &Vec<ColumnMetadata>)
        ensures
            v@ == (match self@.metadata {
                Some(m) => m.columns@,
                None => Seq::empty(),
            }),
    {
        proof {
            use_type_invariant(&self.empty_metadata);
        }
        match &self.current_metadata {
            Some(m) => &m.columns,
            None => &self.empty_metadata.columns,
        }
    }

    fn maybe_has_unread_rows(&self) -> (b: bool) {
        !self.current_result_set_has_been_read_till_end
    }

    fn next_row(&self) -> (r: TdsResult<bool>)
        ensures
            match self@.asked_for_row() {
                Ok(b) => r == Ok::<bool, Error>(b),
                Err(k) => r matches Err(e) && e.kind() == k,
            },
    {
        if self.maybe_has_unread_rows() {
            let _metadata = self.begin_rows()?;
            Ok(true)
        } else {
            Ok(false)
        }
    }
}

/// A client that reads several result sets, one after the other.
pub trait ResultSetClient<T = TdsClient> {
    /// Whether a result set is being read.
    spec fn reading(&self) -> bool;

    /// The result set that is being read; none where all of it has been read.
    fn get_current_resultset(&mut self) -> (r: Option<&mut T>)
        ensures
            r is Some == old(self).reading(),
    ;

    /// What is done to come to the next result set.
    fn move_to_next(&self) -> (s: MoveStep);
}

impl ResultSetClient for TdsClient {
    open spec fn reading(&self) -> bool {
        self@.open_batch && !self@.read_till_end
    }

    fn get_current_resultset(&mut self) -> (r: Option<&mut TdsClient>)
        ensures
            match r {
                Some(c) => *c == *old(self) && *final(c) == *final(self),
                None => *final(self) == *old(self),
            },
    {
        if self.has_open_batch && !self.current_result_set_has_been_read_till_end {
            Some(self)
        } else {
            None
        }
    }

    /// What is done to come to the next result set: rows that are left are passed over first.
    fn move_to_next(&self) -> (s: MoveStep)
        ensures
            s == (if !self@.open_batch {
                MoveStep::NoMore
            } else if !self@.read_till_end {
                MoveStep::DrainRows
            } else {
                MoveStep::Search
            }),
    {
        if !self.has_open_batch {
            MoveStep::NoMore
        } else if self.maybe_has_unread_rows() {
            MoveStep::DrainRows
        } else {
            MoveStep::Search
        }
    }
}

/// After a query was closed, asking for the next row gives none.
pub proof fn law_closed_query_has_no_rows(client: ClientView)
    ensures
        client.closed().asked_for_row() == Ok::<bool, ErrorKind>(false),
        !client.closed().open_batch,
{
}

/// What reading rows comes to: what the client knows, the changes of the session that were handed on,
/// how many rows there were, and how it ended, where it did.
#[verifier::ext_equal]
pub struct RowsRun {
    pub client: ClientView,
    pub changes: Seq<EnvChangeToken>,
    pub rows: nat,
    pub end: Option<Result<(), ErrorKind>>,
}

impl RowsRun {
    /// What a token that is no row, with what is done after it, makes of a run.
    pub open spec fn after<T>(self, client: ClientView, flow: Result<Flow<T>, ErrorKind>) -> RowsRun {
        match flow {
            Ok(Flow::Again) => RowsRun { client, ..self },
            Ok(Flow::Capture(change)) => RowsRun {
                client,
                changes: self.changes.push(change),
                ..self
            },
            Ok(Flow::Over(_)) => RowsRun { client, end: Some(Ok(())), ..self },
            Err(k) => RowsRun { client, end: Some(Err(k)), ..self },
        }
    }

    /// What further readings come to where the next row is asked for after each row.
    pub open spec fn one_by_one(self, results: Seq<RowReadResult>) -> RowsRun
        decreases results.len(),
    {
        if results.len() == 0 || self.end is Some {
            self
        } else {
            let next = match results[0] {
                RowReadResult::RowWritten => RowsRun { rows: self.rows + 1, ..self },
                RowReadResult::Token(token) => {
                    let (client, over) = row_flow(self.client, token);
                    self.after(
                        client,
                        match over {
                            Ok(over) => Ok(row_flow_of(token, over)),
                            Err(k) => Err(k),
                        },
                    )
                },
            };
            next.one_by_one(results.drop_first())
        }
    }

    /// What further readings come to where all rows are asked for.
    pub open spec fn at_once(self, results: Seq<RowReadResult>) -> RowsRun
        decreases results.len(),
    {
        if results.len() == 0 || self.end is Some {
            self
        } else {
            let next = match results[0] {
                RowReadResult::RowWritten => RowsRun { rows: self.rows + 1, ..self },
                RowReadResult::Token(token) => {
                    let (client, over) = row_flow(self.client, token);
                    self.after(
                        client,
                        match over {
                            Ok(Some(_)) => Ok(row_flow_of(token, Some(self.rows))),
                            Ok(None) => Ok(row_flow_of(token, None::<nat>)),
                            Err(k) => Err(all_rows_error(k)),
                        },
                    )
                },
            };
            next.at_once(results.drop_first())
        }
    }
}

/// Reading all rows at once comes to what reading them one by one does: the client knows the same, the
/// same changes of the session are handed on, and there are as many rows. Where the columns of another
/// result set come among the rows, only the kind of the error differs.
pub proof fn law_all_rows_are_rows(run: RowsRun, results: Seq<RowReadResult>)
    ensures
        ({
            let one = run.one_by_one(results);
            let all = run.at_once(results);
            &&& all.client == one.client
            &&& all.changes == one.changes
            &&& all.rows == one.rows
            &&& run.end is None ==> all.end == (match one.end {
                Some(Err(k)) => Some(Err::<(), ErrorKind>(all_rows_error(k))),
                end => end,
            })
        }),
    decreases results.len(),
{
    if results.len() > 0 && run.end is None {
        let rest = results.drop_first();
        match results[0] {
            RowReadResult::RowWritten => {
                law_all_rows_are_rows(RowsRun { rows: run.rows + 1, ..run }, rest);
            },
            RowReadResult::Token(token) => {
                let (client, over) = row_flow(run.client, token);
                let flow = match over {
                    Ok(over) => Ok(row_flow_of(token, over)),
                    Err(k) => Err::<Flow<bool>, ErrorKind>(k),
                };
                let next = run.after(client, flow);
                assert(run.one_by_one(results) == next.one_by_one(rest));
                let all = match over {
                    Ok(Some(_)) => Ok(row_flow_of(token, Some(run.rows))),
                    Ok(None) => Ok(row_flow_of(token, None::<nat>)),
                    Err(k) => Err::<Flow<nat>, ErrorKind>(all_rows_error(k)),
                };
                assert(run.at_once(results) == run.after(client, all).at_once(rest));
                law_all_rows_are_rows(next, rest);
            },
        }
    }
}

/// Counts never go down, and only that of the command that ended changes.
pub proof fn law_counts_grow(client: ClientView, done: DoneToken, command: u16)
    ensures
        client.counted(done).count(command) >= client.count(command),
        command != done.cur_cmd ==> client.counted(done).count(command) == client.count(command),
{
}

/// A search that ends without columns leaves nothing to be read, and so does reading rows where it comes
/// to the last result set's end.
pub proof fn law_end_closes_batch(client: ClientView, loop_count: u32, token: Tokens)
    ensures
        search_flow(client, loop_count, token).1 == Ok::<Option<Option<ColMetadataToken>>, ErrorKind>(
            Some(None),
        ) ==> !search_flow(client, loop_count, token).0.open_batch && search_flow(
            client,
            loop_count,
            token,
        ).0.read_till_end,
        row_flow(client, token).1 == Ok::<Option<bool>, ErrorKind>(Some(false)) ==> row_flow(
            client,
            token,
        ).0.read_till_end,
        (token.done() matches Some(done) && !done.has_more()) ==> !row_flow(client, token).0.open_batch,
{
}

/// Whether a token ends an answer.
pub open spec fn ends_answer(token: Tokens) -> bool {
    token.done() matches Some(done) && !done.has_more()
}

/// The output parameters among tokens, in order.
pub open spec fn values_of(tokens: Seq<Tokens>) -> Seq<ReturnValue>
    decreases tokens.len(),
{
    if tokens.len() == 0 {
        Seq::empty()
    } else {
        match tokens.last() {
            Tokens::ReturnValue(value) => values_of(tokens.drop_last()).push(value),
            _ => values_of(tokens.drop_last()),
        }
    }
}

/// What passing over these tokens makes of the client, and whether it is over.
pub open spec fn drain_run(client: ClientView, tokens: Seq<Tokens>) -> (ClientView, bool)
    decreases tokens.len(),
{
    if tokens.len() == 0 {
        (client, false)
    } else {
        let (before, over) = drain_run(client, tokens.drop_last());
        if over {
            (before, true)
        } else {
            drain_flow(before, tokens.last())
        }
    }
}

/// Passing over an answer is over at its end and not before, and keeps its output parameters, in order,
/// and nothing else.
pub proof fn law_draining_keeps_values(client: ClientView, tokens: Seq<Tokens>)
    requires
        forall|i: int| 0 <= i < tokens.len() - 1 ==> !ends_answer(#[trigger] tokens[i]),
    ensures
        drain_run(client, tokens).1 == (tokens.len() > 0 && ends_answer(tokens.last())),
        drain_run(client, tokens).0 == (ClientView {
            return_values: client.return_values + values_of(tokens),
            ..client
        }),
    decreases tokens.len(),
{
    if tokens.len() > 0 {
        let shorter = tokens.drop_last();
        assert forall|i: int| 0 <= i < shorter.len() - 1 implies !ends_answer(#[trigger] shorter[i]) by {
            assert(shorter[i] == tokens[i]);
        }
        law_draining_keeps_values(client, shorter);
        if shorter.len() > 0 {
            assert(shorter.last() == tokens[shorter.len() - 1]);
        }
    }
    assert(drain_run(client, tokens).0.return_values =~= client.return_values + values_of(tokens));
}

/// What a search comes to after these tokens; nothing while it goes on. Errors of the server are left out
/// here.
pub open spec fn search_run(client: ClientView, tokens: Seq<Tokens>) -> (
    ClientView,
    Result<Option<Option<ColMetadataToken>>, ErrorKind>,
)
    decreases tokens.len(),
{
    if tokens.len() == 0 {
        (client, Ok(None))
    } else {
        let (before, r) = search_run(client, tokens.drop_last());
        if r == Ok::<Option<Option<ColMetadataToken>>, ErrorKind>(None) {
            search_flow(before, (tokens.len() - 1) as u32, tokens.last())
        } else {
            (before, r)
        }
    }
}

/// A server that sends nothing but ends of commands, each with more to follow, does not keep a search
/// going for ever: it is given up after the token that follows the allowed ones.
pub proof fn law_search_is_bounded(client: ClientView, tokens: Seq<Tokens>)
    requires
        forall|i: int|
            0 <= i < tokens.len() ==> ((#[trigger] tokens[i]).done() matches Some(done)
                && done.has_more()),
    ensures
        tokens.len() <= MAX_SEARCHED_TOKENS ==> search_run(client, tokens).1 == Ok::<
            Option<Option<ColMetadataToken>>,
            ErrorKind,
        >(None),
        tokens.len() > MAX_SEARCHED_TOKENS ==> search_run(client, tokens).1 == Err::<
            Option<Option<ColMetadataToken>>,
            ErrorKind,
        >(ErrorKind::Usage),
    decreases tokens.len(),
{
    if tokens.len() > 0 {
        let shorter = tokens.drop_last();
        assert forall|i: int| 0 <= i < shorter.len() implies ((#[trigger] shorter[i]).done() matches Some(
            done,
        ) && done.has_more()) by {
            assert(shorter[i] == tokens[i]);
        }
        law_search_is_bounded(client, shorter);
        assert(tokens[tokens.len() - 1].done() is Some);
    }
}

/// Whether a call prepares a statement: it returns a handle, and takes the list of the statement's
/// parameters and the statement.
pub open spec fn prepares(rpc: SqlRpc, proc_id: RpcProcs, sql: Seq<char>, params_list: Seq<char>) -> bool {
    &&& rpc.rpc_type == RpcType::ProcId(proc_id)
    &&& rpc.positional_parameters matches Some(p)
    &&& p@.len() == 3
    &&& p@[0] == RpcParameter::output_handle()
    &&& p@[1].is_text(params_list)
    &&& p@[2].is_text(sql)
}

/// Which columns of a table a bulk load fills, in order: those that are mapped to, or all of them where
/// nothing is mapped.
pub open spec fn filled_columns(column_count: usize, destinations: Seq<usize>) -> Seq<usize> {
    if destinations.len() == 0 {
        Seq::new(column_count as nat, |i: int| i as usize)
    } else {
        destinations
    }
}

/// Which columns of a table a bulk load fills, in order: those that are mapped to, or all of them where
/// nothing is mapped.
fn mapped_columns(column_count: usize, destinations: &Vec<usize>) -> (v: Vec<usize>)
    ensures
        v@ == filled_columns(column_count, destinations@),
{
    let mut v: Vec<usize> = Vec::new();
    if destinations.len() == 0 {
        let mut i: usize = 0;
        while i < column_count
            invariant
                i <= column_count,
                v@ == Seq::new(i as nat, |k: int| k as usize),
            decreases column_count - i,
        {
            v.push(i);
            i += 1;
            assert(v@ =~= Seq::new(i as nat, |k: int| k as usize));
        }
    } else {
        v.extend_from_slice(destinations.as_slice());
        assert(v@ =~= destinations@);
    }
    v
}

/// A time that is allowed for a request is whole seconds, and none where it is 0 or not stated.
pub proof fn law_limit(timeout_sec: Option<u32>)
    ensures
        limit(timeout_sec) is None == (timeout_sec is None || timeout_sec == Some(0u32)),
        limit(timeout_sec) matches Some(nanos) ==> nanos == timeout_sec->Some_0 * 1_000_000_000,
{
}

/// The rows of a command add up over the ends that tell of them, and stay at the largest number once they
/// would exceed it. Nothing else of what is known changes, but that the end of the answer was read where it
/// was.
pub proof fn law_rows_add_up(client: ClientView, done: DoneToken)
    ensures
        ({
            let sum = client.count(done.cur_cmd) + done.row_count;
            let after = client.ended(done);
            &&& after.count(done.cur_cmd) == (if sum <= 0xFFFF_FFFF_FFFF_FFFF {
                sum
            } else {
                0xFFFF_FFFF_FFFF_FFFF
            })
            &&& forall|c: u16| c != done.cur_cmd ==> #[trigger] after.count(c) == client.count(c)
            &&& after.read_till_end
            &&& after.open_batch == (client.open_batch && done.status % 2 == 1)
            &&& after.metadata == client.metadata
            &&& after.return_values == client.return_values
            &&& after.timeout == client.timeout
            &&& after.transaction == client.transaction
        }),
{
    law_done_status(done);
}

/// What the search for the columns of the next result set makes of a token: it ends with the columns, or
/// with the end of the answer; ends that are followed by more are passed over, and the ten-thousandth and one
/// is refused. Output parameters are kept.
pub proof fn law_search_token(client: ClientView, loop_count: u32, token: Tokens)
    requires
        loop_count < 0xFFFF_FFFF,
    ensures
        token matches Tokens::ColMetadata(m) ==> search_flow(client, loop_count, token).1 == Ok::<
            Option<Option<ColMetadataToken>>,
            ErrorKind,
        >(Some(Some(m))),
        (token matches Tokens::Done(d) || token matches Tokens::DoneProc(d) || token
            matches Tokens::DoneInProc(d)) ==> ({
            let d = token.done()->Some_0;
            let (after, r) = search_flow(client, loop_count, token);
            &&& token.done() is Some
            &&& after == client.ended(d)
            &&& d.status % 2 == 0 ==> r == Ok::<Option<Option<ColMetadataToken>>, ErrorKind>(Some(None))
            &&& d.status % 2 == 1 && loop_count < 10_000 ==> r == Ok::<
                Option<Option<ColMetadataToken>>,
                ErrorKind,
            >(None)
            &&& d.status % 2 == 1 && loop_count >= 10_000 ==> r is Err
        }),
        token matches Tokens::ReturnValue(v) ==> search_flow(client, loop_count, token).0.return_values
            == client.return_values.push(v),
        token is Order || token is Other ==> search_flow(client, loop_count, token).1 is Err,
{
    if token.done() is Some {
        law_done_status(token.done()->Some_0);
    }
}

/// What reading a row makes of another token: the end of the result set, an error of the server, and
/// columns or other tokens that do not belong there.
pub proof fn law_row_token(client: ClientView, token: Tokens)
    ensures
        (token is Done || token is DoneProc || token is DoneInProc) == (row_flow(client, token).1 == Ok::<
            Option<bool>,
            ErrorKind,
        >(Some(false))),
        (token is Order || token is EnvChange || token is ReturnValue) == (row_flow(client, token).1
            == Ok::<Option<bool>, ErrorKind>(None)),
        token is Error ==> row_flow(client, token).1 == Err::<Option<bool>, _>(ErrorKind::SqlServer),
        token is ColMetadata ==> row_flow(client, token).1 == Err::<Option<bool>, _>(ErrorKind::Usage),
        token is Info || token is ReturnStatus || token is Other ==> row_flow(client, token).1 == Err::<
            Option<bool>,
            _,
        >(ErrorKind::Protocol),
        token matches Tokens::ReturnValue(v) ==> row_flow(client, token).0.return_values
            == client.return_values.push(v),
{
}

/// An error that the server told of is handed on with all that it said.
pub proof fn law_server_error_is_whole(t: ErrorToken)
    ensures
        server_error(t) matches Error::SqlServerError {
            message,
            state,
            class,
            number,
            server_name,
            proc_name,
            line_number,
        } && message == t.message && state == t.state && class == t.severity && number == t.number
            && server_name == Some(t.server_name) && proc_name == Some(t.proc_name) && (t.line_number
            < 0x8000_0000 ==> line_number == Some(t.line_number as i32)),
{
}

/// After changes of the session, one after the other.
pub open spec fn changed_by(client: ClientView, sub_types: Seq<u8>) -> ClientView
    decreases sub_types.len(),
{
    if sub_types.len() == 0 {
        client
    } else {
        changed_by(client, sub_types.drop_last()).changed(sub_types.last())
    }
}

/// A transaction is active where the last change that concerned one began it: begins are changes 8, and
/// commits and rollbacks 9 and 10. Where none did it is as it was, and nothing else is ever changed.
pub proof fn law_transaction_is_active(client: ClientView, sub_types: Seq<u8>, last: int)
    requires
        -1 <= last < sub_types.len(),
        last >= 0 ==> 8 <= sub_types[last] <= 10,
        forall|i: int| last < i < sub_types.len() ==> !(8 <= #[trigger] sub_types[i] <= 10),
    ensures
        changed_by(client, sub_types) == (ClientView {
            transaction: if last >= 0 {
                sub_types[last] == 8
            } else {
                client.transaction
            },
            ..client
        }),
    decreases sub_types.len(),
{
    if sub_types.len() > 0 {
        let rest = sub_types.drop_last();
        if last < rest.len() {
            law_transaction_is_active(client, rest, last);
        } else {
            lemma_only_transactions(client, rest);
        }
    }
}

/// Changes of the session change nothing but whether a transaction is active.
proof fn lemma_only_transactions(client: ClientView, sub_types: Seq<u8>)
    ensures
        changed_by(client, sub_types) == (ClientView {
            transaction: changed_by(client, sub_types).transaction,
            ..client
        }),
    decreases sub_types.len(),
{
    if sub_types.len() > 0 {
        lemma_only_transactions(client, sub_types.drop_last());
    }
}

/// The time for a request runs down: what is left and what has passed are together what there was, until
/// nothing is left. It does not matter in how many pieces it passes, and without a limit there is none.
pub proof fn law_time_runs_down(client: ClientView, a: u128, b: u128)
    requires
        a + b <= u128::MAX,
    ensures
        client.timeout matches Some(t) ==> (client.waited(a).timeout matches Some(left) && (if a <= t {
            left + a == t
        } else {
            left == 0
        })),
        client.timeout is None ==> client.waited(a) == client,
        client.waited(a).waited(b) == client.waited((a + b) as u128),
{
}

/// A request gets its time and changes nothing else of what is known; one that returns values forgets those
/// of earlier requests as well.
pub proof fn law_requests(client: ClientView, timeout_sec: Option<u32>)
    ensures
        client.requesting(timeout_sec).timeout == limit(timeout_sec),
        client.requesting(timeout_sec) == (ClientView { timeout: limit(timeout_sec), ..client }),
        client.calling(timeout_sec).return_values.len() == 0,
        client.calling(timeout_sec) == (ClientView {
            return_values: Seq::empty(),
            timeout: limit(timeout_sec),
            ..client
        }),
{
}

/// Without destinations every column is filled, each once and in order; with them the columns are those.
pub proof fn law_filled_columns(column_count: usize, destinations: Seq<usize>, i: int)
    requires
        0 <= i < filled_columns(column_count, destinations).len(),
    ensures
        filled_columns(column_count, destinations).len() == (if destinations.len() == 0 {
            column_count as nat
        } else {
            destinations.len()
        }),
        filled_columns(column_count, destinations)[i] == (if destinations.len() == 0 {
            i
        } else {
            destinations[i] as int
        }),
{
}

/// What counting the rows of an answer makes of a token: an end adds its rows and is the last where no more
/// follows, what the server tells of is passed over, and its error ends the count.
pub proof fn law_done_token(rows: u64, token: Tokens)
    ensures
        token matches Tokens::Done(d) ==> (rows + d.row_count <= u64::MAX ==> done_flow(rows, token) == (
            (rows + d.row_count) as u64,
            Ok::<Option<u64>, ErrorKind>(
                if d.status % 2 == 1 {
                    None
                } else {
                    Some((rows + d.row_count) as u64)
                },
            ),
        )),
        token matches Tokens::DoneProc(d) ==> done_flow(rows, token) == done_flow(rows, Tokens::Done(d)),
        token matches Tokens::DoneInProc(d) ==> done_flow(rows, token) == done_flow(rows, Tokens::Done(d)),
        token is Info || token is EnvChange ==> done_flow(rows, token) == (
            rows,
            Ok::<Option<u64>, ErrorKind>(None),
        ),
        token is Error ==> done_flow(rows, token) == (
            rows,
            Err::<Option<u64>, ErrorKind>(ErrorKind::SqlServer),
        ),
        token is ColMetadata || token is Order || token is ReturnValue || token is ReturnStatus || token
            is Other ==> done_flow(rows, token).1 == Err::<Option<u64>, ErrorKind>(ErrorKind::Usage),
{
    if token.done() is Some {
        law_done_status(token.done()->Some_0);
    }
}

/// What passing over the rest of an answer makes of a token: output parameters are kept, and it is over with
/// an end that no more follows.
pub proof fn law_drain_token(client: ClientView, token: Tokens)
    ensures
        token matches Tokens::ReturnValue(v) ==> drain_flow(client, token).0.return_values
            == client.return_values.push(v),
        !(token is ReturnValue) ==> drain_flow(client, token).0 == client,
        drain_flow(client, token).1 == ((token matches Tokens::Done(d) && d.status % 2 == 0) || (token
            matches Tokens::DoneProc(d) && d.status % 2 == 0) || (token matches Tokens::DoneInProc(d)
            && d.status % 2 == 0)),
{
    if token.done() is Some {
        law_done_status(token.done()->Some_0);
    }
}

/// A query that is closed leaves nothing of its answer, and keeps the counts, the transaction and the
/// collation. The next result set is read where there is one, and the answer is over where there is none.
pub proof fn law_closed_and_moved(client: ClientView, m: ColMetadataToken)
    ensures
        ({
            let c = client.closed();
            &&& c.metadata is None && c.return_values.len() == 0 && c.timeout is None
            &&& !c.open_batch && c.read_till_end
            &&& c.counts == client.counts && c.transaction == client.transaction && c.collation
                == client.collation
        }),
        ({
            let c = client.moved(Some(m));
            &&& c.metadata == Some(m)
            &&& c.open_batch && !c.read_till_end
            &&& c.asked_for_row() == Ok::<bool, ErrorKind>(true)
            &&& c.counts == client.counts && c.return_values == client.return_values && c.timeout
                == client.timeout
        }),
        ({
            let c = client.moved(None);
            &&& c.metadata is None
            &&& !c.open_batch && c.read_till_end
            &&& c.asked_for_row() == Ok::<bool, ErrorKind>(false)
        }),
        !client.read_till_end && client.metadata is None ==> client.asked_for_row() == Err::<
            bool,
            ErrorKind,
        >(ErrorKind::Usage),
{
}

/// Reading all rows at once reports an error of the server as it is, and any other as one of the protocol.
/// A change of the session is handed on, and anything else that does not end the rows is passed over.
pub proof fn law_all_rows(k: ErrorKind, change: EnvChangeToken, token: Tokens, rows: u64)
    ensures
        all_rows_error(ErrorKind::SqlServer) == ErrorKind::SqlServer,
        k != ErrorKind::SqlServer ==> all_rows_error(k) == ErrorKind::Protocol,
        row_flow_of(Tokens::EnvChange(change), None::<u64>) == Flow::<u64>::Capture(change),
        !(token is EnvChange) ==> row_flow_of(token, None::<u64>) == Flow::<u64>::Again,
        row_flow_of(token, Some(rows)) == Flow::Over(rows),
{
}

/// A request that prepares a command has three parameters without names: the handle, which comes back, the
/// list of the parameters, and the command. What is sent as text is the text.
pub proof fn law_prepares(rpc: SqlRpc, proc_id: RpcProcs, sql: Seq<char>, params_list: Seq<char>)
    requires
        prepares(rpc, proc_id, sql, params_list),
    ensures
        rpc.rpc_type == RpcType::ProcId(proc_id),
        rpc.positional_parameters matches Some(p) && p@.len() == 3 && p@[0].name is None && p@[0].by_ref
            && p@[0].value == RpcValue::Int(None) && sends_text(p@[1], params_list) && sends_text(p@[2], sql),
{
    let p = rpc.positional_parameters->Some_0;
    lemma_sends_text(p@[1], params_list);
    lemma_sends_text(p@[2], sql);
}

/// Whether a parameter hands on a text, without a name.
pub open spec fn sends_text(p: RpcParameter, text: Seq<char>) -> bool {
    &&& p.name is None
    &&& !p.by_ref
    &&& p.value matches RpcValue::NVarcharMax(Some(s)) && text_of(s.bytes@, s.encoding_type) == text
}

/// A parameter of text hands on the text.
proof fn lemma_sends_text(p: RpcParameter, text: Seq<char>)
    requires
        p.is_text(text),
    ensures
        sends_text(p, text),
{
    law_units_round_trip(utf16_units(text));
    law_utf16_round_trip(text);
}

} // verus!
