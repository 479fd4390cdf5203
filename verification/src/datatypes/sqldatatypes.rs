//! Wire-level identifiers of data types, and the description of a column's type.

use crate::error::{Error, ErrorKind, TdsResult};
use crate::text::number_message;
use vstd::prelude::*;

verus! {

/// Size of the header of a vector value, in bytes.
pub const VECTOR_HEADER_SIZE: usize = 8;

/// The largest vector value, header included, in bytes.
pub const VECTOR_MAX_SIZE: usize = 8000;

/// The largest number of dimensions of a vector.
pub const VECTOR_MAX_DIMENSIONS: usize = 1998;

/// The data types that the protocol identifies by one byte.
#[derive(Clone, Copy, Debug, PartialEq, Eq, Structural)]
pub enum TdsDataType {
    Void,
    Image,
    Text,
    Guid,
    VarBinary,
    IntN,
    VarChar,
    DateN,
    TimeN,
    DateTime2N,
    DateTimeOffsetN,
    Binary,
    Char,
    Int1,
    Bit,
    Int2,
    Decimal,
    Int4,
    DateTim4,
    Flt4,
    Money,
    DateTime,
    Flt8,
    Numeric,
    SsVariant,
    NText,
    BitN,
    DecimalN,
    NumericN,
    FltN,
    MoneyN,
    DateTimeN,
    Money4,
    Int8,
    BigVarBinary,
    BigVarChar,
    BigBinary,
    BigChar,
    NVarChar,
    NChar,
    Udt,
    Xml,
    Json,
    Vector,
}

impl TdsDataType {
    /// The byte that stands for this type.
    pub open spec fn spec_code(self) -> u8 {
        match self {
            TdsDataType::Void => 0x1F,
            TdsDataType::Image => 0x22,
            TdsDataType::Text => 0x23,
            TdsDataType::Guid => 0x24,
            TdsDataType::VarBinary => 0x25,
            TdsDataType::IntN => 0x26,
            TdsDataType::VarChar => 0x27,
            TdsDataType::DateN => 0x28,
            TdsDataType::TimeN => 0x29,
            TdsDataType::DateTime2N => 0x2A,
            TdsDataType::DateTimeOffsetN => 0x2B,
            TdsDataType::Binary => 0x2D,
            TdsDataType::Char => 0x2F,
            TdsDataType::Int1 => 0x30,
            TdsDataType::Bit => 0x32,
            TdsDataType::Int2 => 0x34,
            TdsDataType::Decimal => 0x37,
            TdsDataType::Int4 => 0x38,
            TdsDataType::DateTim4 => 0x3A,
            TdsDataType::Flt4 => 0x3B,
            TdsDataType::Money => 0x3C,
            TdsDataType::DateTime => 0x3D,
            TdsDataType::Flt8 => 0x3E,
            TdsDataType::Numeric => 0x3F,
            TdsDataType::SsVariant => 0x62,
            TdsDataType::NText => 0x63,
            TdsDataType::BitN => 0x68,
            TdsDataType::DecimalN => 0x6A,
            TdsDataType::NumericN => 0x6C,
            TdsDataType::FltN => 0x6D,
            TdsDataType::MoneyN => 0x6E,
            TdsDataType::DateTimeN => 0x6F,
            TdsDataType::Money4 => 0x7A,
            TdsDataType::Int8 => 0x7F,
            TdsDataType::BigVarBinary => 0xA5,
            TdsDataType::BigVarChar => 0xA7,
            TdsDataType::BigBinary => 0xAD,
            TdsDataType::BigChar => 0xAF,
            TdsDataType::NVarChar => 0xE7,
            TdsDataType::NChar => 0xEF,
            TdsDataType::Udt => 0xF0,
            TdsDataType::Xml => 0xF1,
            TdsDataType::Json => 0xF4,
            TdsDataType::Vector => 0xF5,
        }
    }

    /// The byte that stands for this type.
    #[verifier::when_used_as_spec(spec_code)]
    pub fn code(self) -> (code: u8)
        ensures
            code == self.spec_code(),
    {
        match self {
            TdsDataType::Void => 0x1F,
            TdsDataType::Image => 0x22,
            TdsDataType::Text => 0x23,
            TdsDataType::Guid => 0x24,
            TdsDataType::VarBinary => 0x25,
            TdsDataType::IntN => 0x26,
            TdsDataType::VarChar => 0x27,
            TdsDataType::DateN => 0x28,
            TdsDataType::TimeN => 0x29,
            TdsDataType::DateTime2N => 0x2A,
            TdsDataType::DateTimeOffsetN => 0x2B,
            TdsDataType::Binary => 0x2D,
            TdsDataType::Char => 0x2F,
            TdsDataType::Int1 => 0x30,
            TdsDataType::Bit => 0x32,
            TdsDataType::Int2 => 0x34,
            TdsDataType::Decimal => 0x37,
            TdsDataType::Int4 => 0x38,
            TdsDataType::DateTim4 => 0x3A,
            TdsDataType::Flt4 => 0x3B,
            TdsDataType::Money => 0x3C,
            TdsDataType::DateTime => 0x3D,
            TdsDataType::Flt8 => 0x3E,
            TdsDataType::Numeric => 0x3F,
            TdsDataType::SsVariant => 0x62,
            TdsDataType::NText => 0x63,
            TdsDataType::BitN => 0x68,
            TdsDataType::DecimalN => 0x6A,
            TdsDataType::NumericN => 0x6C,
            TdsDataType::FltN => 0x6D,
            TdsDataType::MoneyN => 0x6E,
            TdsDataType::DateTimeN => 0x6F,
            TdsDataType::Money4 => 0x7A,
            TdsDataType::Int8 => 0x7F,
            TdsDataType::BigVarBinary => 0xA5,
            TdsDataType::BigVarChar => 0xA7,
            TdsDataType::BigBinary => 0xAD,
            TdsDataType::BigChar => 0xAF,
            TdsDataType::NVarChar => 0xE7,
            TdsDataType::NChar => 0xEF,
            TdsDataType::Udt => 0xF0,
            TdsDataType::Xml => 0xF1,
            TdsDataType::Json => 0xF4,
            TdsDataType::Vector => 0xF5,
        }
    }

    /// The type that a byte stands for, where it stands for one.
    pub open spec fn of_code(code: u8) -> Option<TdsDataType> {
        match code {
            0x1F => Some(TdsDataType::Void),
            0x22 => Some(TdsDataType::Image),
            0x23 => Some(TdsDataType::Text),
            0x24 => Some(TdsDataType::Guid),
            0x25 => Some(TdsDataType::VarBinary),
            0x26 => Some(TdsDataType::IntN),
            0x27 => Some(TdsDataType::VarChar),
            0x28 => Some(TdsDataType::DateN),
            0x29 => Some(TdsDataType::TimeN),
            0x2A => Some(TdsDataType::DateTime2N),
            0x2B => Some(TdsDataType::DateTimeOffsetN),
            0x2D => Some(TdsDataType::Binary),
            0x2F => Some(TdsDataType::Char),
            0x30 => Some(TdsDataType::Int1),
            0x32 => Some(TdsDataType::Bit),
            0x34 => Some(TdsDataType::Int2),
            0x37 => Some(TdsDataType::Decimal),
            0x38 => Some(TdsDataType::Int4),
            0x3A => Some(TdsDataType::DateTim4),
            0x3B => Some(TdsDataType::Flt4),
            0x3C => Some(TdsDataType::Money),
            0x3D => Some(TdsDataType::DateTime),
            0x3E => Some(TdsDataType::Flt8),
            0x3F => Some(TdsDataType::Numeric),
            0x62 => Some(TdsDataType::SsVariant),
            0x63 => Some(TdsDataType::NText),
            0x68 => Some(TdsDataType::BitN),
            0x6A => Some(TdsDataType::DecimalN),
            0x6C => Some(TdsDataType::NumericN),
            0x6D => Some(TdsDataType::FltN),
            0x6E => Some(TdsDataType::MoneyN),
            0x6F => Some(TdsDataType::DateTimeN),
            0x7A => Some(TdsDataType::Money4),
            0x7F => Some(TdsDataType::Int8),
            0xA5 => Some(TdsDataType::BigVarBinary),
            0xA7 => Some(TdsDataType::BigVarChar),
            0xAD => Some(TdsDataType::BigBinary),
            0xAF => Some(TdsDataType::BigChar),
            0xE7 => Some(TdsDataType::NVarChar),
            0xEF => Some(TdsDataType::NChar),
            0xF0 => Some(TdsDataType::Udt),
            0xF1 => Some(TdsDataType::Xml),
            0xF4 => Some(TdsDataType::Json),
            0xF5 => Some(TdsDataType::Vector),
            _ => None,
        }
    }

    /// The type that a byte stands for; a protocol error for a byte that stands for none.
    pub fn from_code(code: u8) -> (r: TdsResult<TdsDataType>)
        ensures
            match Self::of_code(code) {
                Some(t) => r == Ok::<TdsDataType, Error>(t),
                None => r matches Err(e) && e.kind() == ErrorKind::Protocol,
            },
    {
        let t = match code {
            0x1F => TdsDataType::Void,
            0x22 => TdsDataType::Image,
            0x23 => TdsDataType::Text,
            0x24 => TdsDataType::Guid,
            0x25 => TdsDataType::VarBinary,
            0x26 => TdsDataType::IntN,
            0x27 => TdsDataType::VarChar,
            0x28 => TdsDataType::DateN,
            0x29 => TdsDataType::TimeN,
            0x2A => TdsDataType::DateTime2N,
            0x2B => TdsDataType::DateTimeOffsetN,
            0x2D => TdsDataType::Binary,
            0x2F => TdsDataType::Char,
            0x30 => TdsDataType::Int1,
            0x32 => TdsDataType::Bit,
            0x34 => TdsDataType::Int2,
            0x37 => TdsDataType::Decimal,
            0x38 => TdsDataType::Int4,
            0x3A => TdsDataType::DateTim4,
            0x3B => TdsDataType::Flt4,
            0x3C => TdsDataType::Money,
            0x3D => TdsDataType::DateTime,
            0x3E => TdsDataType::Flt8,
            0x3F => TdsDataType::Numeric,
            0x62 => TdsDataType::SsVariant,
            0x63 => TdsDataType::NText,
            0x68 => TdsDataType::BitN,
            0x6A => TdsDataType::DecimalN,
            0x6C => TdsDataType::NumericN,
            0x6D => TdsDataType::FltN,
            0x6E => TdsDataType::MoneyN,
            0x6F => TdsDataType::DateTimeN,
            0x7A => TdsDataType::Money4,
            0x7F => TdsDataType::Int8,
            0xA5 => TdsDataType::BigVarBinary,
            0xA7 => TdsDataType::BigVarChar,
            0xAD => TdsDataType::BigBinary,
            0xAF => TdsDataType::BigChar,
            0xE7 => TdsDataType::NVarChar,
            0xEF => TdsDataType::NChar,
            0xF0 => TdsDataType::Udt,
            0xF1 => TdsDataType::Xml,
            0xF4 => TdsDataType::Json,
            0xF5 => TdsDataType::Vector,
            _ => {
                return Err(
                    Error::ProtocolError(number_message("Unknown TDS data type: ", code as u128, "")),
                );
            },
        };
        Ok(t)
    }

    /// Whether values of this type have one fixed length and no length prefix.
    pub open spec fn spec_is_fixed_length(self) -> bool {
        match self {
            TdsDataType::Void
            | TdsDataType::Int1
            | TdsDataType::Bit
            | TdsDataType::Int2
            | TdsDataType::Int4
            | TdsDataType::DateTim4
            | TdsDataType::Flt4
            | TdsDataType::Money
            | TdsDataType::DateTime
            | TdsDataType::Flt8
            | TdsDataType::Money4
            | TdsDataType::Int8 => true,
            _ => false,
        }
    }

    /// Whether values of this type have one fixed length and no length prefix.
    #[verifier::when_used_as_spec(spec_is_fixed_length)]
    pub fn is_fixed_length(self) -> (b: bool)
        ensures
            b == self.spec_is_fixed_length(),
    {
        match self {
            TdsDataType::Void
            | TdsDataType::Int1
            | TdsDataType::Bit
            | TdsDataType::Int2
            | TdsDataType::Int4
            | TdsDataType::DateTim4
            | TdsDataType::Flt4
            | TdsDataType::Money
            | TdsDataType::DateTime
            | TdsDataType::Flt8
            | TdsDataType::Money4
            | TdsDataType::Int8 => true,
            _ => false,
        }
    }
}

/// Every type is found again by its byte.
pub proof fn law_type_code_round_trip(t: TdsDataType)
    ensures
        TdsDataType::of_code(t.spec_code()) == Some(t),
{
}

/// A byte that stands for a type is that type's byte.
pub proof fn law_type_code_unique(code: u8)
    ensures
        TdsDataType::of_code(code) matches Some(t) ==> t.spec_code() == code,
{
}

/// The types whose values have one fixed length.
#[derive(Clone, Copy, Debug, PartialEq, Eq, Structural)]
pub enum FixedLengthTypes {
    Void,
    Int1,
    Bit,
    Int2,
    Int4,
    DateTim4,
    Flt4,
    Money,
    DateTime,
    Flt8,
    Money4,
    Int8,
}

impl FixedLengthTypes {
    /// The fixed-length type of this name, where the type has a fixed length.
    pub open spec fn of_type(t: TdsDataType) -> Option<FixedLengthTypes> {
        match t {
            TdsDataType::Void => Some(FixedLengthTypes::Void),
            TdsDataType::Int1 => Some(FixedLengthTypes::Int1),
            TdsDataType::Bit => Some(FixedLengthTypes::Bit),
            TdsDataType::Int2 => Some(FixedLengthTypes::Int2),
            TdsDataType::Int4 => Some(FixedLengthTypes::Int4),
            TdsDataType::DateTim4 => Some(FixedLengthTypes::DateTim4),
            TdsDataType::Flt4 => Some(FixedLengthTypes::Flt4),
            TdsDataType::Money => Some(FixedLengthTypes::Money),
            TdsDataType::DateTime => Some(FixedLengthTypes::DateTime),
            TdsDataType::Flt8 => Some(FixedLengthTypes::Flt8),
            TdsDataType::Money4 => Some(FixedLengthTypes::Money4),
            TdsDataType::Int8 => Some(FixedLengthTypes::Int8),
            _ => None,
        }
    }

    /// The fixed-length type of this name; a protocol error for a type of variable length.
    pub fn from_type(t: TdsDataType) -> (r: TdsResult<FixedLengthTypes>)
        ensures
            match Self::of_type(t) {
                Some(f) => r == Ok::<FixedLengthTypes, Error>(f),
                None => r matches Err(e) && e.kind() == ErrorKind::Protocol,
            },
    {
        let f = match t {
            TdsDataType::Void => FixedLengthTypes::Void,
            TdsDataType::Int1 => FixedLengthTypes::Int1,
            TdsDataType::Bit => FixedLengthTypes::Bit,
            TdsDataType::Int2 => FixedLengthTypes::Int2,
            TdsDataType::Int4 => FixedLengthTypes::Int4,
            TdsDataType::DateTim4 => FixedLengthTypes::DateTim4,
            TdsDataType::Flt4 => FixedLengthTypes::Flt4,
            TdsDataType::Money => FixedLengthTypes::Money,
            TdsDataType::DateTime => FixedLengthTypes::DateTime,
            TdsDataType::Flt8 => FixedLengthTypes::Flt8,
            TdsDataType::Money4 => FixedLengthTypes::Money4,
            TdsDataType::Int8 => FixedLengthTypes::Int8,
            _ => {
                return Err(
                    Error::ProtocolError(number_message("Not a fixed-length type: ", t.code() as u128, "")),
                );
            },
        };
        Ok(f)
    }
}

/// The types whose values carry their length.
#[derive(Clone, Copy, Debug, PartialEq, Eq, Structural)]
pub enum VariableLengthTypes {
    Image,
    Text,
    Guid,
    VarBinary,
    IntN,
    VarChar,
    DateN,
    TimeN,
    DateTime2N,
    DateTimeOffsetN,
    Binary,
    Char,
    Decimal,
    Numeric,
    SsVariant,
    NText,
    BitN,
    DecimalN,
    NumericN,
    FltN,
    MoneyN,
    DateTimeN,
    BigVarBinary,
    BigVarChar,
    BigBinary,
    BigChar,
    NVarChar,
    NChar,
    Udt,
    Xml,
    Json,
    Vector,
}

impl VariableLengthTypes {
    /// The variable-length type of this name, where the type has a variable length.
    pub open spec fn of_type(t: TdsDataType) -> Option<VariableLengthTypes> {
        match t {
            TdsDataType::Image => Some(VariableLengthTypes::Image),
            TdsDataType::Text => Some(VariableLengthTypes::Text),
            TdsDataType::Guid => Some(VariableLengthTypes::Guid),
            TdsDataType::VarBinary => Some(VariableLengthTypes::VarBinary),
            TdsDataType::IntN => Some(VariableLengthTypes::IntN),
            TdsDataType::VarChar => Some(VariableLengthTypes::VarChar),
            TdsDataType::DateN => Some(VariableLengthTypes::DateN),
            TdsDataType::TimeN => Some(VariableLengthTypes::TimeN),
            TdsDataType::DateTime2N => Some(VariableLengthTypes::DateTime2N),
            TdsDataType::DateTimeOffsetN => Some(VariableLengthTypes::DateTimeOffsetN),
            TdsDataType::Binary => Some(VariableLengthTypes::Binary),
            TdsDataType::Char => Some(VariableLengthTypes::Char),
            TdsDataType::Decimal => Some(VariableLengthTypes::Decimal),
            TdsDataType::Numeric => Some(VariableLengthTypes::Numeric),
            TdsDataType::SsVariant => Some(VariableLengthTypes::SsVariant),
            TdsDataType::NText => Some(VariableLengthTypes::NText),
            TdsDataType::BitN => Some(VariableLengthTypes::BitN),
            TdsDataType::DecimalN => Some(VariableLengthTypes::DecimalN),
            TdsDataType::NumericN => Some(VariableLengthTypes::NumericN),
            TdsDataType::FltN => Some(VariableLengthTypes::FltN),
            TdsDataType::MoneyN => Some(VariableLengthTypes::MoneyN),
            TdsDataType::DateTimeN => Some(VariableLengthTypes::DateTimeN),
            TdsDataType::BigVarBinary => Some(VariableLengthTypes::BigVarBinary),
            TdsDataType::BigVarChar => Some(VariableLengthTypes::BigVarChar),
            TdsDataType::BigBinary => Some(VariableLengthTypes::BigBinary),
            TdsDataType::BigChar => Some(VariableLengthTypes::BigChar),
            TdsDataType::NVarChar => Some(VariableLengthTypes::NVarChar),
            TdsDataType::NChar => Some(VariableLengthTypes::NChar),
            TdsDataType::Udt => Some(VariableLengthTypes::Udt),
            TdsDataType::Xml => Some(VariableLengthTypes::Xml),
            TdsDataType::Json => Some(VariableLengthTypes::Json),
            TdsDataType::Vector => Some(VariableLengthTypes::Vector),
            _ => None,
        }
    }

    /// The variable-length type of this name; a protocol error for a type of fixed length.
    pub fn from_type(t: TdsDataType) -> (r: TdsResult<VariableLengthTypes>)
        ensures
            match Self::of_type(t) {
                Some(v) => r == Ok::<VariableLengthTypes, Error>(v),
                None => r matches Err(e) && e.kind() == ErrorKind::Protocol,
            },
    {
        let v = match t {
            TdsDataType::Image => VariableLengthTypes::Image,
            TdsDataType::Text => VariableLengthTypes::Text,
            TdsDataType::Guid => VariableLengthTypes::Guid,
            TdsDataType::VarBinary => VariableLengthTypes::VarBinary,
            TdsDataType::IntN => VariableLengthTypes::IntN,
            TdsDataType::VarChar => VariableLengthTypes::VarChar,
            TdsDataType::DateN => VariableLengthTypes::DateN,
            TdsDataType::TimeN => VariableLengthTypes::TimeN,
            TdsDataType::DateTime2N => VariableLengthTypes::DateTime2N,
            TdsDataType::DateTimeOffsetN => VariableLengthTypes::DateTimeOffsetN,
            TdsDataType::Binary => VariableLengthTypes::Binary,
            TdsDataType::Char => VariableLengthTypes::Char,
            TdsDataType::Decimal => VariableLengthTypes::Decimal,
            TdsDataType::Numeric => VariableLengthTypes::Numeric,
            TdsDataType::SsVariant => VariableLengthTypes::SsVariant,
            TdsDataType::NText => VariableLengthTypes::NText,
            TdsDataType::BitN => VariableLengthTypes::BitN,
            TdsDataType::DecimalN => VariableLengthTypes::DecimalN,
            TdsDataType::NumericN => VariableLengthTypes::NumericN,
            TdsDataType::FltN => VariableLengthTypes::FltN,
            TdsDataType::MoneyN => VariableLengthTypes::MoneyN,
            TdsDataType::DateTimeN => VariableLengthTypes::DateTimeN,
            TdsDataType::BigVarBinary => VariableLengthTypes::BigVarBinary,
            TdsDataType::BigVarChar => VariableLengthTypes::BigVarChar,
            TdsDataType::BigBinary => VariableLengthTypes::BigBinary,
            TdsDataType::BigChar => VariableLengthTypes::BigChar,
            TdsDataType::NVarChar => VariableLengthTypes::NVarChar,
            TdsDataType::NChar => VariableLengthTypes::NChar,
            TdsDataType::Udt => VariableLengthTypes::Udt,
            TdsDataType::Xml => VariableLengthTypes::Xml,
            TdsDataType::Json => VariableLengthTypes::Json,
            TdsDataType::Vector => VariableLengthTypes::Vector,
            _ => {
                return Err(
                    Error::ProtocolError(number_message("Not a variable-length type: ", t.code() as u128, "")),
                );
            },
        };
        Ok(v)
    }
}

/// The collation of character data, as the server describes it.
#[derive(Clone, Copy, Debug, PartialEq, Eq, Structural)]
pub struct SqlCollation {
    /// Locale identifier (20 bits), comparison flags (8 bits) and version (4 bits).
    pub info: u32,
    pub lcid_language_id: i32,
    pub col_flags: u8,
    pub sort_id: u8,
}

/// The locale identifier is the low 20 bits of a collation's first word.
pub const LCID_MASK: u32 = 0xFFFFF;

/// The bit of a collation's first word that says that the text is UTF-8.
pub const COLLATION_UTF8_FLAG: u32 = 0x400_0000;

impl SqlCollation {
    /// The collation that a first word and a sort identifier describe.
    pub open spec fn spec_from_parts(info: u32, sort_id: u8) -> SqlCollation {
        SqlCollation {
            info,
            lcid_language_id: (info & LCID_MASK) as i32,
            col_flags: ((info >> 20) & 0xFF) as u8,
            sort_id,
        }
    }

    /// The collation that a first word and a sort identifier describe.
    #[verifier::when_used_as_spec(spec_from_parts)]
    pub fn from_parts(info: u32, sort_id: u8) -> (c: SqlCollation)
        ensures
            c == Self::spec_from_parts(info, sort_id),
    {
        SqlCollation {
            info,
            lcid_language_id: (info & LCID_MASK) as i32,
            col_flags: ((info >> 20) & 0xFF) as u8,
            sort_id,
        }
    }

    /// Whether text of this collation is UTF-8.
    pub open spec fn spec_utf8(self) -> bool {
        self.info & COLLATION_UTF8_FLAG != 0
    }

    /// Whether text of this collation is UTF-8.
    #[verifier::when_used_as_spec(spec_utf8)]
    pub fn utf8(self) -> (b: bool)
        ensures
            b == self.spec_utf8(),
    {
        self.info & COLLATION_UTF8_FLAG != 0
    }
}

/// Bit 26 of a collation's first word says that its text is UTF-8.
pub proof fn law_utf8_flag(c: SqlCollation)
    ensures
        c.spec_utf8() == ((c.info / 0x400_0000) % 2 == 1),
{
    let info = c.info;
    assert((info & 0x400_0000 != 0) == ((info / 0x400_0000) % 2 == 1)) by (bit_vector);
}

/// A collation that is made of its parts has the lower 20 bits of the first word as its locale identifier,
/// and the eight above them as its flags.
pub proof fn law_collation_parts(info: u32, sort_id: u8)
    ensures
        ({
            let c = SqlCollation::spec_from_parts(info, sort_id);
            &&& c.info == info
            &&& c.sort_id == sort_id
            &&& c.lcid_language_id == info % 0x10_0000
            &&& c.col_flags == (info / 0x10_0000) % 0x100
        }),
{
    assert(info & 0xFFFFF == info % 0x10_0000) by (bit_vector);
    assert((info >> 20) & 0xFF == (info / 0x10_0000) % 0x100) by (bit_vector);
}

/// What a column's type carries beside its identifier.
#[derive(Clone, Copy, Debug, PartialEq, Eq, Structural)]
pub enum TypeInfoVariant {
    FixedLen(FixedLengthTypes),
    VarLen(VariableLengthTypes, usize),
    VarLenString(VariableLengthTypes, usize, Option<SqlCollation>),
    VarLenScale(VariableLengthTypes, u8),
    VarLenPrecisionScale(VariableLengthTypes, usize, u8, u8),
    PartialLen(VariableLengthTypes, Option<SqlCollation>),
}

/// The type of a column.
#[derive(Clone, Copy, Debug, PartialEq, Eq, Structural)]
pub struct TypeInfo {
    pub tds_type: TdsDataType,
    pub length: usize,
    pub type_info_variant: TypeInfoVariant,
}

/// The layouts of a vector value.
#[derive(Clone, Copy, Debug, PartialEq, Eq, Structural)]
pub enum VectorLayoutFormat {
    V1,
}

/// The versions of a vector value's layout.
#[derive(Clone, Copy, Debug, PartialEq, Eq, Structural)]
pub enum VectorLayoutVersion {
    V1,
}

/// The types of a vector's elements.
#[derive(Clone, Copy, Debug, PartialEq, Eq, Structural)]
pub enum VectorBaseType {
    Float32,
}

/// The byte of the only layout format.
pub const VECTOR_LAYOUT_FORMAT_V1: u8 = 0xA9;

/// The byte of the only layout version.
pub const VECTOR_LAYOUT_VERSION_V1: u8 = 0x01;

/// The byte of elements that are single-precision numbers.
pub const VECTOR_BASE_TYPE_FLOAT32: u8 = 0x00;

impl VectorLayoutFormat {
    /// The byte of this format.
    pub fn code(self) -> (b: u8)
        ensures
            b == VECTOR_LAYOUT_FORMAT_V1,
    {
        VECTOR_LAYOUT_FORMAT_V1
    }

    /// The format of a byte; a protocol error for an unknown byte.
    pub fn from_code(b: u8) -> (r: TdsResult<VectorLayoutFormat>)
        ensures
            b == VECTOR_LAYOUT_FORMAT_V1 ==> r == Ok::<VectorLayoutFormat, Error>(VectorLayoutFormat::V1),
            b != VECTOR_LAYOUT_FORMAT_V1 ==> (r matches Err(e) && e.kind() == ErrorKind::Protocol),
    {
        if b == VECTOR_LAYOUT_FORMAT_V1 {
            Ok(VectorLayoutFormat::V1)
        } else {
            Err(Error::ProtocolError(number_message("Invalid vector layout format: ", b as u128, "")))
        }
    }
}

impl VectorLayoutVersion {
    /// The byte of this version.
    pub fn code(self) -> (b: u8)
        ensures
            b == VECTOR_LAYOUT_VERSION_V1,
    {
        VECTOR_LAYOUT_VERSION_V1
    }

    /// The version of a byte; a protocol error for an unknown byte.
    pub fn from_code(b: u8) -> (r: TdsResult<VectorLayoutVersion>)
        ensures
            b == VECTOR_LAYOUT_VERSION_V1 ==> r == Ok::<VectorLayoutVersion, Error>(VectorLayoutVersion::V1),
            b != VECTOR_LAYOUT_VERSION_V1 ==> (r matches Err(e) && e.kind() == ErrorKind::Protocol),
    {
        if b == VECTOR_LAYOUT_VERSION_V1 {
            Ok(VectorLayoutVersion::V1)
        } else {
            Err(Error::ProtocolError(number_message("Invalid vector layout version: ", b as u128, "")))
        }
    }
}

impl VectorBaseType {
    /// The byte of this element type.
    pub fn code(self) -> (b: u8)
        ensures
            b == VECTOR_BASE_TYPE_FLOAT32,
    {
        VECTOR_BASE_TYPE_FLOAT32
    }

    /// The element type of a byte; a protocol error for an unknown byte.
    pub fn from_code(b: u8) -> (r: TdsResult<VectorBaseType>)
        ensures
            b == VECTOR_BASE_TYPE_FLOAT32 ==> r == Ok::<VectorBaseType, Error>(VectorBaseType::Float32),
            b != VECTOR_BASE_TYPE_FLOAT32 ==> (r matches Err(e) && e.kind() == ErrorKind::Protocol),
    {
        if b == VECTOR_BASE_TYPE_FLOAT32 {
            Ok(VectorBaseType::Float32)
        } else {
            Err(Error::ProtocolError(number_message("Invalid vector base type: ", b as u128, "")))
        }
    }

    /// The size of one element, in bytes.
    pub fn element_size_bytes(self) -> (n: usize)
        ensures
            n == 4,
    {
        4
    }
}

/// How long a time of day of a scale is on the wire, where the scale is one that the protocol knows.
pub open spec fn spec_time_length(scale: u8) -> Option<u8> {
    if scale <= 2 {
        Some(3)
    } else if scale <= 4 {
        Some(4)
    } else if scale <= 7 {
        Some(5)
    } else {
        None
    }
}

/// How long a time of day of a scale is on the wire; a usage error for a scale above 7.
pub fn get_time_length_from_scale(scale: u8) -> (r: TdsResult<u8>)
    ensures
        match spec_time_length(scale) {
            Some(n) => r == Ok::<u8, Error>(n),
            None => r matches Err(e) && e.kind() == ErrorKind::Usage,
        },
{
    if scale <= 2 {
        Ok(3)
    } else if scale <= 4 {
        Ok(4)
    } else if scale <= 7 {
        Ok(5)
    } else {
        Err(Error::UsageError(number_message("Invalid time scale: ", scale as u128, "")))
    }
}

/// The bytes that types go by on the wire, and no others: those of a fixed length are 0x1F, 0x7A, 0x7F and
/// those from 0x30 on, but for the two decimal types of old among them.
pub proof fn law_type_codes(code: u8)
    ensures
        TdsDataType::Void.code() == 0x1F,
        TdsDataType::Image.code() == 0x22,
        TdsDataType::Text.code() == 0x23,
        TdsDataType::Guid.code() == 0x24,
        TdsDataType::VarBinary.code() == 0x25,
        TdsDataType::IntN.code() == 0x26,
        TdsDataType::VarChar.code() == 0x27,
        TdsDataType::DateN.code() == 0x28,
        TdsDataType::TimeN.code() == 0x29,
        TdsDataType::DateTime2N.code() == 0x2A,
        TdsDataType::DateTimeOffsetN.code() == 0x2B,
        TdsDataType::Binary.code() == 0x2D,
        TdsDataType::Char.code() == 0x2F,
        TdsDataType::Int1.code() == 0x30,
        TdsDataType::Bit.code() == 0x32,
        TdsDataType::Int2.code() == 0x34,
        TdsDataType::Decimal.code() == 0x37,
        TdsDataType::Int4.code() == 0x38,
        TdsDataType::DateTim4.code() == 0x3A,
        TdsDataType::Flt4.code() == 0x3B,
        TdsDataType::Money.code() == 0x3C,
        TdsDataType::DateTime.code() == 0x3D,
        TdsDataType::Flt8.code() == 0x3E,
        TdsDataType::Numeric.code() == 0x3F,
        TdsDataType::SsVariant.code() == 0x62,
        TdsDataType::NText.code() == 0x63,
        TdsDataType::BitN.code() == 0x68,
        TdsDataType::DecimalN.code() == 0x6A,
        TdsDataType::NumericN.code() == 0x6C,
        TdsDataType::FltN.code() == 0x6D,
        TdsDataType::MoneyN.code() == 0x6E,
        TdsDataType::DateTimeN.code() == 0x6F,
        TdsDataType::Money4.code() == 0x7A,
        TdsDataType::Int8.code() == 0x7F,
        TdsDataType::BigVarBinary.code() == 0xA5,
        TdsDataType::BigVarChar.code() == 0xA7,
        TdsDataType::BigBinary.code() == 0xAD,
        TdsDataType::BigChar.code() == 0xAF,
        TdsDataType::NVarChar.code() == 0xE7,
        TdsDataType::NChar.code() == 0xEF,
        TdsDataType::Udt.code() == 0xF0,
        TdsDataType::Xml.code() == 0xF1,
        TdsDataType::Json.code() == 0xF4,
        TdsDataType::Vector.code() == 0xF5,
        TdsDataType::of_code(code) matches Some(t) ==> t.code() == code && t.is_fixed_length() == (code == 0x1F
            || code == 0x7A || code == 0x7F || (0x30 <= code <= 0x3E && code != 0x37)),
{
}

/// Every type is either of a fixed length or of a variable one, and goes by its own name among those.
pub proof fn law_length_types(t: TdsDataType)
    ensures
        FixedLengthTypes::of_type(t) is Some == t.is_fixed_length(),
        VariableLengthTypes::of_type(t) is Some == !t.is_fixed_length(),
        FixedLengthTypes::of_type(TdsDataType::Void) == Some(FixedLengthTypes::Void),
        FixedLengthTypes::of_type(TdsDataType::Int1) == Some(FixedLengthTypes::Int1),
        FixedLengthTypes::of_type(TdsDataType::Bit) == Some(FixedLengthTypes::Bit),
        FixedLengthTypes::of_type(TdsDataType::Int2) == Some(FixedLengthTypes::Int2),
        FixedLengthTypes::of_type(TdsDataType::Int4) == Some(FixedLengthTypes::Int4),
        FixedLengthTypes::of_type(TdsDataType::DateTim4) == Some(FixedLengthTypes::DateTim4),
        FixedLengthTypes::of_type(TdsDataType::Flt4) == Some(FixedLengthTypes::Flt4),
        FixedLengthTypes::of_type(TdsDataType::Money) == Some(FixedLengthTypes::Money),
        FixedLengthTypes::of_type(TdsDataType::DateTime) == Some(FixedLengthTypes::DateTime),
        FixedLengthTypes::of_type(TdsDataType::Flt8) == Some(FixedLengthTypes::Flt8),
        FixedLengthTypes::of_type(TdsDataType::Money4) == Some(FixedLengthTypes::Money4),
        FixedLengthTypes::of_type(TdsDataType::Int8) == Some(FixedLengthTypes::Int8),
        VariableLengthTypes::of_type(TdsDataType::Image) == Some(VariableLengthTypes::Image),
        VariableLengthTypes::of_type(TdsDataType::Text) == Some(VariableLengthTypes::Text),
        VariableLengthTypes::of_type(TdsDataType::Guid) == Some(VariableLengthTypes::Guid),
        VariableLengthTypes::of_type(TdsDataType::VarBinary) == Some(VariableLengthTypes::VarBinary),
        VariableLengthTypes::of_type(TdsDataType::IntN) == Some(VariableLengthTypes::IntN),
        VariableLengthTypes::of_type(TdsDataType::VarChar) == Some(VariableLengthTypes::VarChar),
        VariableLengthTypes::of_type(TdsDataType::DateN) == Some(VariableLengthTypes::DateN),
        VariableLengthTypes::of_type(TdsDataType::TimeN) == Some(VariableLengthTypes::TimeN),
        VariableLengthTypes::of_type(TdsDataType::DateTime2N) == Some(VariableLengthTypes::DateTime2N),
        VariableLengthTypes::of_type(TdsDataType::DateTimeOffsetN) == Some(VariableLengthTypes::DateTimeOffsetN),
        VariableLengthTypes::of_type(TdsDataType::Binary) == Some(VariableLengthTypes::Binary),
        VariableLengthTypes::of_type(TdsDataType::Char) == Some(VariableLengthTypes::Char),
        VariableLengthTypes::of_type(TdsDataType::Decimal) == Some(VariableLengthTypes::Decimal),
        VariableLengthTypes::of_type(TdsDataType::Numeric) == Some(VariableLengthTypes::Numeric),
        VariableLengthTypes::of_type(TdsDataType::SsVariant) == Some(VariableLengthTypes::SsVariant),
        VariableLengthTypes::of_type(TdsDataType::NText) == Some(VariableLengthTypes::NText),
        VariableLengthTypes::of_type(TdsDataType::BitN) == Some(VariableLengthTypes::BitN),
        VariableLengthTypes::of_type(TdsDataType::DecimalN) == Some(VariableLengthTypes::DecimalN),
        VariableLengthTypes::of_type(TdsDataType::NumericN) == Some(VariableLengthTypes::NumericN),
        VariableLengthTypes::of_type(TdsDataType::FltN) == Some(VariableLengthTypes::FltN),
        VariableLengthTypes::of_type(TdsDataType::MoneyN) == Some(VariableLengthTypes::MoneyN),
        VariableLengthTypes::of_type(TdsDataType::DateTimeN) == Some(VariableLengthTypes::DateTimeN),
        VariableLengthTypes::of_type(TdsDataType::BigVarBinary) == Some(VariableLengthTypes::BigVarBinary),
        VariableLengthTypes::of_type(TdsDataType::BigVarChar) == Some(VariableLengthTypes::BigVarChar),
        VariableLengthTypes::of_type(TdsDataType::BigBinary) == Some(VariableLengthTypes::BigBinary),
        VariableLengthTypes::of_type(TdsDataType::BigChar) == Some(VariableLengthTypes::BigChar),
        VariableLengthTypes::of_type(TdsDataType::NVarChar) == Some(VariableLengthTypes::NVarChar),
        VariableLengthTypes::of_type(TdsDataType::NChar) == Some(VariableLengthTypes::NChar),
        VariableLengthTypes::of_type(TdsDataType::Udt) == Some(VariableLengthTypes::Udt),
        VariableLengthTypes::of_type(TdsDataType::Xml) == Some(VariableLengthTypes::Xml),
        VariableLengthTypes::of_type(TdsDataType::Json) == Some(VariableLengthTypes::Json),
        VariableLengthTypes::of_type(TdsDataType::Vector) == Some(VariableLengthTypes::Vector),
{
}

} // verus!
