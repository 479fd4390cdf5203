//! The tokens that a server's answer is made of.

use crate::datatypes::column_values::ColumnValues;
use crate::datatypes::metadata::ColumnMetadata;
use crate::error::{Error, ErrorKind, TdsResult};
use crate::text::number_message;
use vstd::prelude::*;

verus! {

/// What a token is.
#[derive(Clone, Copy, Debug, PartialEq, Eq, Structural)]
pub enum TokenType {
    AltMetadata,
    AltRow,
    ColMetadata,
    ColInfo,
    DataClassification,
    Done,
    DoneInProc,
    DoneProc,
    EnvChange,
    Error,
    FeatureExtAck,
    FedAuthInfo,
    Info,
    LoginAck,
    NbcRow,
    Offset,
    Order,
    ReturnStatus,
    ReturnValue,
    Row,
    SSPI,
    SessionState,
    TabName,
}

impl TokenType {
    /// The byte that a token of this type starts with.
    pub open spec fn spec_code(self) -> u8 {
        match self {
            TokenType::AltMetadata => 0x88,
            TokenType::AltRow => 0xD3,
            TokenType::ColMetadata => 0x81,
            TokenType::ColInfo => 0xA5,
            TokenType::DataClassification => 0xA3,
            TokenType::Done => 0xFD,
            TokenType::DoneInProc => 0xFF,
            TokenType::DoneProc => 0xFE,
            TokenType::EnvChange => 0xE3,
            TokenType::Error => 0xAA,
            TokenType::FeatureExtAck => 0xAE,
            TokenType::FedAuthInfo => 0xEE,
            TokenType::Info => 0xAB,
            TokenType::LoginAck => 0xAD,
            TokenType::NbcRow => 0xD2,
            TokenType::Offset => 0x78,
            TokenType::Order => 0xA9,
            TokenType::ReturnStatus => 0x79,
            TokenType::ReturnValue => 0xAC,
            TokenType::Row => 0xD1,
            TokenType::SSPI => 0xED,
            TokenType::SessionState => 0xE4,
            TokenType::TabName => 0xA4,
        }
    }

    /// The byte that a token of this type starts with.
    #[verifier::when_used_as_spec(spec_code)]
    pub fn code(self) -> (code: u8)
        ensures
            code == self.spec_code(),
    {
        match self {
            TokenType::AltMetadata => 0x88,
            TokenType::AltRow => 0xD3,
            TokenType::ColMetadata => 0x81,
            TokenType::ColInfo => 0xA5,
            TokenType::DataClassification => 0xA3,
            TokenType::Done => 0xFD,
            TokenType::DoneInProc => 0xFF,
            TokenType::DoneProc => 0xFE,
            TokenType::EnvChange => 0xE3,
            TokenType::Error => 0xAA,
            TokenType::FeatureExtAck => 0xAE,
            TokenType::FedAuthInfo => 0xEE,
            TokenType::Info => 0xAB,
            TokenType::LoginAck => 0xAD,
            TokenType::NbcRow => 0xD2,
            TokenType::Offset => 0x78,
            TokenType::Order => 0xA9,
            TokenType::ReturnStatus => 0x79,
            TokenType::ReturnValue => 0xAC,
            TokenType::Row => 0xD1,
            TokenType::SSPI => 0xED,
            TokenType::SessionState => 0xE4,
            TokenType::TabName => 0xA4,
        }
    }

    /// The type of the token that starts with this byte.
    pub open spec fn of_code(code: u8) -> Option<TokenType> {
        match code {
            0x88 => Some(TokenType::AltMetadata),
            0xD3 => Some(TokenType::AltRow),
            0x81 => Some(TokenType::ColMetadata),
            0xA5 => Some(TokenType::ColInfo),
            0xA3 => Some(TokenType::DataClassification),
            0xFD => Some(TokenType::Done),
            0xFF => Some(TokenType::DoneInProc),
            0xFE => Some(TokenType::DoneProc),
            0xE3 => Some(TokenType::EnvChange),
            0xAA => Some(TokenType::Error),
            0xAE => Some(TokenType::FeatureExtAck),
            0xEE => Some(TokenType::FedAuthInfo),
            0xAB => Some(TokenType::Info),
            0xAD => Some(TokenType::LoginAck),
            0xD2 => Some(TokenType::NbcRow),
            0x78 => Some(TokenType::Offset),
            0xA9 => Some(TokenType::Order),
            0x79 => Some(TokenType::ReturnStatus),
            0xAC => Some(TokenType::ReturnValue),
            0xD1 => Some(TokenType::Row),
            0xED => Some(TokenType::SSPI),
            0xE4 => Some(TokenType::SessionState),
            0xA4 => Some(TokenType::TabName),
            _ => None,
        }
    }

    /// The type of the token that starts with this byte; a protocol error where there is none.
    pub fn from_code(code: u8) -> (r: TdsResult<TokenType>)
        ensures
            match TokenType::of_code(code) {
                Some(t) => r == Ok::<TokenType, Error>(t),
                None => r matches Err(e) && e.kind() == ErrorKind::Protocol,
            },
    {
        match code {
            0x88 => Ok(TokenType::AltMetadata),
            0xD3 => Ok(TokenType::AltRow),
            0x81 => Ok(TokenType::ColMetadata),
            0xA5 => Ok(TokenType::ColInfo),
            0xA3 => Ok(TokenType::DataClassification),
            0xFD => Ok(TokenType::Done),
            0xFF => Ok(TokenType::DoneInProc),
            0xFE => Ok(TokenType::DoneProc),
            0xE3 => Ok(TokenType::EnvChange),
            0xAA => Ok(TokenType::Error),
            0xAE => Ok(TokenType::FeatureExtAck),
            0xEE => Ok(TokenType::FedAuthInfo),
            0xAB => Ok(TokenType::Info),
            0xAD => Ok(TokenType::LoginAck),
            0xD2 => Ok(TokenType::NbcRow),
            0x78 => Ok(TokenType::Offset),
            0xA9 => Ok(TokenType::Order),
            0x79 => Ok(TokenType::ReturnStatus),
            0xAC => Ok(TokenType::ReturnValue),
            0xD1 => Ok(TokenType::Row),
            0xED => Ok(TokenType::SSPI),
            0xE4 => Ok(TokenType::SessionState),
            0xA4 => Ok(TokenType::TabName),
            _ => Err(
                Error::ProtocolError(number_message("Unknown token type: ", code as u128, "")),
            ),
        }
    }
}

/// A token's type is read back from its byte.
pub proof fn law_token_code_round_trip(t: TokenType)
    ensures
        TokenType::of_code(t.code()) == Some(t),
{
}

/// The status bit that says that more results follow.
pub const DONE_MORE: u16 = 0x0001;

/// The status bit that acknowledges an attention.
pub const DONE_ATTN: u16 = 0x0020;

/// The end of a command.
#[derive(Clone, Copy, Debug, PartialEq, Eq, Structural)]
pub struct DoneToken {
    pub status: u16,
    pub cur_cmd: u16,
    pub row_count: u64,
}

impl DoneToken {
    /// Whether more results follow.
    pub open spec fn spec_has_more(&self) -> bool {
        self.status & DONE_MORE != 0
    }

    /// Whether more results follow.
    #[verifier::when_used_as_spec(spec_has_more)]
    pub fn has_more(&self) -> (b: bool)
        ensures
            b == self.spec_has_more(),
    {
        self.status & DONE_MORE != 0
    }

    /// Whether the token acknowledges an attention.
    pub open spec fn spec_acknowledges(&self) -> bool {
        self.status & DONE_ATTN != 0
    }

    /// Whether the token acknowledges an attention.
    #[verifier::when_used_as_spec(spec_acknowledges)]
    pub fn acknowledges(&self) -> (b: bool)
        ensures
            b == self.spec_acknowledges(),
    {
        self.status & DONE_ATTN != 0
    }
}

/// The columns of a result set.
#[derive(Debug, PartialEq, Eq)]
pub struct ColMetadataToken {
    pub columns: Vec<ColumnMetadata>,
}

/// An error that the server reports.
#[derive(Clone, Debug, PartialEq, Eq)]
pub struct ErrorToken {
    pub number: u32,
    pub state: u8,
    pub severity: u8,
    pub message: String,
    pub server_name: String,
    pub proc_name: String,
    pub line_number: u32,
}

/// A message of the server.
#[derive(Clone, Debug, PartialEq, Eq)]
pub struct InfoToken {
    pub number: u32,
    pub state: u8,
    pub severity: u8,
    pub message: String,
    pub server_name: String,
    pub proc_name: String,
    pub line_number: u32,
}

/// A change of the session: what changes, and the bytes of the new and the old value.
#[derive(Clone, Debug, PartialEq, Eq)]
pub struct EnvChangeToken {
    pub sub_type: u8,
    pub new_value: Vec<u8>,
    pub old_value: Vec<u8>,
}

/// The value of an output parameter.
#[derive(Clone, Debug, PartialEq)]
pub struct ReturnValue {
    pub param_name: String,
    pub value: ColumnValues,
}

/// The status that a procedure returns.
#[derive(Clone, Copy, Debug, PartialEq, Eq, Structural)]
pub struct ReturnStatusToken {
    pub value: i32,
}

/// The columns that a result set is sorted by.
#[derive(Clone, Debug, PartialEq, Eq)]
pub struct OrderToken {
    pub columns: Vec<u16>,
}

/// A token of a server's answer, without the rows. Tokens of the login are told apart by their type
/// alone.
#[derive(Debug, PartialEq)]
pub enum Tokens {
    ColMetadata(ColMetadataToken),
    Done(DoneToken),
    DoneInProc(DoneToken),
    DoneProc(DoneToken),
    EnvChange(EnvChangeToken),
    Error(ErrorToken),
    Info(InfoToken),
    Order(OrderToken),
    ReturnStatus(ReturnStatusToken),
    ReturnValue(ReturnValue),
    Other(TokenType),
}

impl Tokens {
    /// The end of a command, where the token is one.
    pub open spec fn done(self) -> Option<DoneToken> {
        match self {
            Tokens::Done(d) => Some(d),
            Tokens::DoneInProc(d) => Some(d),
            Tokens::DoneProc(d) => Some(d),
            _ => None,
        }
    }
}

/// The lowest bit of the status says that more of the answer follows, and the sixth that the server has
/// stopped as it was told to.
pub proof fn law_done_status(d: DoneToken)
    ensures
        d.spec_has_more() == (d.status % 2 == 1),
        d.spec_acknowledges() == ((d.status / 32) % 2 == 1),
{
    let s = d.status;
    assert((s & 0x0001 != 0) == (s % 2 == 1)) by (bit_vector);
    assert((s & 0x0020 != 0) == ((s / 32) % 2 == 1)) by (bit_vector);
}

/// The tokens of an answer by their codes: the ends of commands are the three highest codes, rows of both
/// kinds stand together, and so do what the server tells of, from errors to the features it agrees to. Codes
/// that are none of these are no tokens.
pub proof fn law_token_codes(code: u8)
    ensures
        code >= 0xFD ==> TokenType::of_code(code) == Some(
            if code == 0xFD {
                TokenType::Done
            } else if code == 0xFE {
                TokenType::DoneProc
            } else {
                TokenType::DoneInProc
            },
        ),
        0xD1 <= code <= 0xD3 ==> TokenType::of_code(code) == Some(
            if code == 0xD1 {
                TokenType::Row
            } else if code == 0xD2 {
                TokenType::NbcRow
            } else {
                TokenType::AltRow
            },
        ),
        0xA9 <= code <= 0xAE ==> TokenType::of_code(code) == Some(
            if code == 0xA9 {
                TokenType::Order
            } else if code == 0xAA {
                TokenType::Error
            } else if code == 0xAB {
                TokenType::Info
            } else if code == 0xAC {
                TokenType::ReturnValue
            } else if code == 0xAD {
                TokenType::LoginAck
            } else {
                TokenType::FeatureExtAck
            },
        ),
        0xA3 <= code <= 0xA5 ==> TokenType::of_code(code) == Some(
            if code == 0xA3 {
                TokenType::DataClassification
            } else if code == 0xA4 {
                TokenType::TabName
            } else {
                TokenType::ColInfo
            },
        ),
        0xE3 <= code <= 0xE4 ==> TokenType::of_code(code) == Some(
            if code == 0xE3 {
                TokenType::EnvChange
            } else {
                TokenType::SessionState
            },
        ),
        0xED <= code <= 0xEE ==> TokenType::of_code(code) == Some(
            if code == 0xED {
                TokenType::SSPI
            } else {
                TokenType::FedAuthInfo
            },
        ),
        0x78 <= code <= 0x79 ==> TokenType::of_code(code) == Some(
            if code == 0x78 {
                TokenType::Offset
            } else {
                TokenType::ReturnStatus
            },
        ),
        code == 0x81 ==> TokenType::of_code(code) == Some(TokenType::ColMetadata),
        code == 0x88 ==> TokenType::of_code(code) == Some(TokenType::AltMetadata),
        code < 0x78 || 0x79 < code < 0x81 || 0x81 < code < 0x88 || 0x88 < code < 0xA3 || 0xA5 < code
            < 0xA9 || 0xAE < code < 0xD1 || 0xD3 < code < 0xE3 || 0xE4 < code < 0xED || 0xEE < code
            < 0xFD ==> TokenType::of_code(code) is None,
{
}

} // verus!
