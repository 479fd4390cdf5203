//! The messages of a client, and the packets that they are sent in.

use crate::datatypes::column_values::ColumnValues;
use crate::datatypes::sql_string::{EncodingType, SqlString};
use crate::datatypes::sqldatatypes::SqlCollation;
use crate::io::packet_writer::units_bytes;
use crate::text::utf16_units;
use vstd::prelude::*;

verus! {

/// What a message is.
#[derive(Clone, Copy, Debug, PartialEq, Eq, Structural)]
pub enum PacketType {
    SqlBatch,
    RpcRequest,
    TabularResult,
    Attention,
    BulkLoad,
    FedAuthToken,
    TransactionManager,
    Login7,
    Sspi,
    PreLogin,
}

impl PacketType {
    /// The byte that stands for this type in a packet's header.
    pub open spec fn spec_code(self) -> u8 {
        match self {
            PacketType::SqlBatch => 0x01,
            PacketType::RpcRequest => 0x03,
            PacketType::TabularResult => 0x04,
            PacketType::Attention => 0x06,
            PacketType::BulkLoad => 0x07,
            PacketType::FedAuthToken => 0x08,
            PacketType::TransactionManager => 0x0E,
            PacketType::Login7 => 0x10,
            PacketType::Sspi => 0x11,
            PacketType::PreLogin => 0x12,
        }
    }

    /// The byte that stands for this type in a packet's header.
    #[verifier::when_used_as_spec(spec_code)]
    pub fn code(self) -> (code: u8)
        ensures
            code == self.spec_code(),
    {
        match self {
            PacketType::SqlBatch => 0x01,
            PacketType::RpcRequest => 0x03,
            PacketType::TabularResult => 0x04,
            PacketType::Attention => 0x06,
            PacketType::BulkLoad => 0x07,
            PacketType::FedAuthToken => 0x08,
            PacketType::TransactionManager => 0x0E,
            PacketType::Login7 => 0x10,
            PacketType::Sspi => 0x11,
            PacketType::PreLogin => 0x12,
        }
    }
}

/// The status of a packet that is followed by another of the same message.
pub const STATUS_NORMAL: u8 = 0x00;

/// The status of the last packet of a message.
pub const STATUS_EOM: u8 = 0x01;

/// The status of the last packet of a message that the server is to ignore.
pub const STATUS_EOM_IGNORE: u8 = 0x03;

/// A batch of statements.
#[derive(Debug)]
pub struct SqlBatch {
    pub sql_command: String,
}

/// A value that is sent to a procedure.
#[derive(Debug)]
pub enum RpcValue {
    NVarcharMax(Option<SqlString>),
    Int(Option<i32>),
    Value(ColumnValues),
}

/// A parameter of a procedure: whether its value is returned, and the value that is sent.
#[derive(Debug)]
pub struct RpcParameter {
    pub name: Option<String>,
    pub by_ref: bool,
    pub value: RpcValue,
}

impl RpcParameter {
    /// Whether this is a parameter without a name that hands in a text.
    pub open spec fn is_text(self, text: Seq<char>) -> bool {
        &&& self.name is None
        &&& !self.by_ref
        &&& self.value matches RpcValue::NVarcharMax(Some(s)) && s.bytes@ == units_bytes(
            utf16_units(text),
        ) && s.encoding_type == EncodingType::Utf16
    }

    /// A parameter without a name that hands in a text.
    pub fn text(text: String) -> (p: RpcParameter)
        ensures
            p.is_text(text@),
    {
        RpcParameter {
            name: None,
            by_ref: false,
            value: RpcValue::NVarcharMax(Some(SqlString::from_utf8_string(text))),
        }
    }

    /// A parameter without a name that hands in a handle.
    pub open spec fn spec_handle(handle: i32) -> RpcParameter {
        RpcParameter { name: None, by_ref: false, value: RpcValue::Int(Some(handle)) }
    }

    /// A parameter without a name that hands in a handle.
    #[verifier::when_used_as_spec(spec_handle)]
    pub fn handle(handle: i32) -> (p: RpcParameter)
        ensures
            p == RpcParameter::spec_handle(handle),
    {
        RpcParameter { name: None, by_ref: false, value: RpcValue::Int(Some(handle)) }
    }

    /// A parameter without a name or a value that returns a handle.
    pub open spec fn spec_output_handle() -> RpcParameter {
        RpcParameter { name: None, by_ref: true, value: RpcValue::Int(None) }
    }

    /// A parameter without a name or a value that returns a handle.
    #[verifier::when_used_as_spec(spec_output_handle)]
    pub fn output_handle() -> (p: RpcParameter)
        ensures
            p == RpcParameter::spec_output_handle(),
    {
        RpcParameter { name: None, by_ref: true, value: RpcValue::Int(None) }
    }
}

/// The procedures that are called by number.
#[derive(Clone, Copy, Debug, PartialEq, Eq, Structural)]
pub enum RpcProcs {
    ExecuteSql,
    Prepare,
    Execute,
    PrepExec,
    Unprepare,
}

/// The procedure that is called.
#[derive(Debug)]
pub enum RpcType {
    ProcId(RpcProcs),
    Named(String),
}

/// The call of a procedure.
#[derive(Debug)]
pub struct SqlRpc {
    pub rpc_type: RpcType,
    pub positional_parameters: Option<Vec<RpcParameter>>,
    pub named_parameters: Option<Vec<RpcParameter>>,
    pub database_collation: SqlCollation,
}

/// How far transactions are kept apart.
#[derive(Clone, Copy, Debug, PartialEq, Eq, Structural)]
pub enum TransactionIsolationLevel {
    NoChange,
    ReadUncommitted,
    ReadCommitted,
    RepeatableRead,
    Serializable,
    Snapshot,
}

/// The transaction that is to begin.
#[derive(Debug)]
pub struct CreateTxnParams {
    pub level: TransactionIsolationLevel,
    pub name: Option<String>,
}

/// What is asked of the server's management of transactions.
#[derive(Debug)]
pub enum TransactionManagementType {
    Begin(CreateTxnParams),
    Save(String),
    Commit { name: Option<String>, create_txn_params: Option<CreateTxnParams> },
    Rollback { name: Option<String>, create_txn_params: Option<CreateTxnParams> },
    GetDtcAddress,
}

/// The kinds of packets by their codes, in the order of the codes; the ends of messages have an odd status,
/// and the second bit tells the server to ignore the message.
pub proof fn law_packet_codes(t: PacketType)
    ensures
        t is SqlBatch ==> t.spec_code() == 1,
        t is RpcRequest ==> t.spec_code() == 3,
        t is TabularResult ==> t.spec_code() == 4,
        t is Attention ==> t.spec_code() == 6,
        t is BulkLoad ==> t.spec_code() == 7,
        t is FedAuthToken ==> t.spec_code() == 8,
        t is TransactionManager ==> t.spec_code() == 14,
        t is Login7 ==> t.spec_code() == 16,
        t is Sspi ==> t.spec_code() == 17,
        t is PreLogin ==> t.spec_code() == 18,
        STATUS_NORMAL == 0 && STATUS_EOM == 1 && STATUS_EOM_IGNORE == 1 + 2,
{
}

/// A handle that is sent is the number itself, by value; one that is asked for is a number without a value, by
/// reference.
pub proof fn law_handles(handle: i32)
    ensures
        RpcParameter::spec_handle(handle).value == RpcValue::Int(Some(handle)),
        !RpcParameter::spec_handle(handle).by_ref && RpcParameter::spec_handle(handle).name is None,
        RpcParameter::spec_output_handle().value == RpcValue::Int(None),
        RpcParameter::spec_output_handle().by_ref && RpcParameter::spec_output_handle().name is None,
{
}

} // verus!
