//! Character data with its encoding.

use crate::datatypes::lcid_encoding::{code_page_of, decoded_text, lcid_to_encoding};
use crate::datatypes::metadata::ColumnMetadata;
use crate::datatypes::sqldatatypes::{SqlCollation, TdsDataType, TypeInfoVariant};
use crate::io::packet_writer::{lemma_units_bytes_len, push_units, units_bytes};
use crate::text::{
    decode_utf16_units, law_utf16_round_trip, units_from_bytes, units_of, utf16_decoded,
    utf16_text, utf16_units,
};
use vstd::prelude::*;
use vstd::utf8::{decode_utf8, valid_utf8};

verus! {

/// The encoding of character data.
#[derive(Clone, Copy, Debug, PartialEq, Eq, Structural)]
pub enum EncodingType {
    Utf16,
    Utf8,
    LcidBased(SqlCollation),
    DelayedSet,
}

/// Character data as the server sends it: bytes and their encoding.
#[derive(Clone, Debug, PartialEq, Eq)]
pub struct SqlString {
    pub bytes: Vec<u8>,
    pub encoding_type: EncodingType,
}

impl SqlString {
    /// Character data made of these bytes in this encoding.
    pub fn new(bytes: Vec<u8>, encoding_type: EncodingType) -> (s: SqlString)
        ensures
            s == (SqlString { bytes, encoding_type }),
    {
        SqlString { bytes, encoding_type }
    }

    /// A text as character data in UTF-16.
    pub fn from_utf8_string(text: String) -> (s: SqlString)
        ensures
            s.bytes@ == units_bytes(utf16_units(text@)),
            s.encoding_type == EncodingType::Utf16,
            text_of(s.bytes@, s.encoding_type) == text@,
    {
        let units = utf16_text(text.as_str());
        let mut bytes: Vec<u8> = Vec::new();
        push_units(&mut bytes, &units);
        proof {
            assert(bytes@ =~= units_bytes(units@));
            law_units_round_trip(units@);
            law_utf16_round_trip(text@);
        }
        SqlString { bytes, encoding_type: EncodingType::Utf16 }
    }

    /// The text that the character data stands for.
    pub fn to_utf8_string(&self) -> (text: String)
        ensures
            text@ == text_of(self.bytes@, self.encoding_type),
            self.encoding_type == EncodingType::Utf8 && valid_utf8(self.bytes@) ==> text@
                == decode_utf8(self.bytes@),
    {
        match self.encoding_type {
            EncodingType::Utf16 => {
                let units = units_from_bytes(&self.bytes);
                decode_utf16_units(&units)
            },
            EncodingType::Utf8 | EncodingType::DelayedSet => text_from_utf8_lossy(
                self.bytes.as_slice(),
            ),
            EncodingType::LcidBased(c) => match lcid_to_encoding(c.info & 0x000F_FFFF) {
                Ok(page) => page.decode(self.bytes.as_slice()).0,
                Err(_) => text_from_utf8_lossy(self.bytes.as_slice()),
            },
        }
    }

    /// The bytes, where they are UTF-16.
    pub fn as_utf16_bytes(&self) -> (b: Option<&[u8]>)
        ensures
            match b {
                Some(b) => self.encoding_type == EncodingType::Utf16 && b@ == self.bytes@,
                None => self.encoding_type != EncodingType::Utf16,
            },
    {
        match self.encoding_type {
            EncodingType::Utf16 => Some(self.bytes.as_slice()),
            _ => None,
        }
    }

    /// The bytes, where they are already in the form in which a column takes them: those in a code
    /// page, and those whose encoding is left open.
    pub fn as_raw_wire_bytes(&self) -> (b: Option<&[u8]>)
        ensures
            match b {
                Some(b) => is_raw(self.encoding_type) && b@ == self.bytes@,
                None => !is_raw(self.encoding_type),
            },
    {
        match self.encoding_type {
            EncodingType::LcidBased(_) | EncodingType::DelayedSet => Some(self.bytes.as_slice()),
            _ => None,
        }
    }
}

/// Whether bytes in this encoding are already in the form in which a column takes them.
pub open spec fn is_raw(encoding_type: EncodingType) -> bool {
    encoding_type is LcidBased || encoding_type is DelayedSet
}

/// What `String::from_utf8_lossy` makes of bytes.
pub uninterp spec fn lossy_utf8(bytes: Seq<u8>) -> Seq<char>;

/// Calls `String::from_utf8_lossy`. Valid UTF-8 is decoded; of other bytes nothing is said but that
/// the text depends on them alone.
#[verifier::external_body]
fn text_from_utf8_lossy(bytes: &[u8]) -> (text: String)
    ensures
        text@ == lossy_utf8(bytes@),
        valid_utf8(bytes@) ==> text@ == decode_utf8(bytes@),
{
    String::from_utf8_lossy(bytes).into_owned()
}

/// Calls `std::str::from_utf8`: the text that valid UTF-8 stands for, and nothing for other bytes.
#[verifier::external_body]
pub(crate) fn text_from_utf8(bytes: &[u8]) -> (text: Option<String>)
    ensures
        (text is Some) == valid_utf8(bytes@),
        text is Some ==> text->Some_0@ == decode_utf8(bytes@),
{
    std::str::from_utf8(bytes).ok().map(String::from)
}

/// The text that bytes stand for in UTF-8, with what cannot be read in it replaced.
pub open spec fn utf8_text(bytes: Seq<u8>) -> Seq<char> {
    if valid_utf8(bytes) {
        decode_utf8(bytes)
    } else {
        lossy_utf8(bytes)
    }
}

/// The text that character data stands for.
pub open spec fn text_of(bytes: Seq<u8>, encoding_type: EncodingType) -> Seq<char> {
    match encoding_type {
        EncodingType::Utf16 => utf16_decoded(units_of(bytes)),
        EncodingType::Utf8 | EncodingType::DelayedSet => utf8_text(bytes),
        EncodingType::LcidBased(c) => match code_page_of(c.info & 0x000F_FFFF) {
            Some(page) => decoded_text(page.spec_label(), bytes).0,
            None => utf8_text(bytes),
        },
    }
}

/// Units written as bytes are read back.
pub proof fn law_units_round_trip(units: Seq<u16>)
    ensures
        units_of(units_bytes(units)) == units,
    decreases units.len(),
{
    lemma_units_bytes_len(units);
    if units.len() > 0 {
        let rest = units.drop_last();
        law_units_round_trip(rest);
        lemma_units_bytes_len(rest);
        let b = units_bytes(units);
        assert forall|i: int| 0 <= i < units.len() implies units_of(b)[i] == units[i] by {
            if i < rest.len() {
                assert(b[2 * i] == units_bytes(rest)[2 * i]);
                assert(b[2 * i + 1] == units_bytes(rest)[2 * i + 1]);
                assert(units_of(units_bytes(rest))[i] == rest[i]);
            }
        }
    }
    assert(units_of(units_bytes(units)) =~= units);
}

/// The collation that a column's type carries, where it carries one.
pub open spec fn spec_collation_of(metadata: &ColumnMetadata) -> Option<SqlCollation> {
    match metadata.type_info.type_info_variant {
        TypeInfoVariant::VarLenString(_, _, c) => c,
        TypeInfoVariant::PartialLen(_, c) => c,
        _ => None,
    }
}

/// The encoding of a column's character data: UTF-16 for the national types, else what the
/// column's collation says, else left open.
pub open spec fn spec_encoding_type(metadata: &ColumnMetadata) -> EncodingType {
    match metadata.data_type {
        TdsDataType::NChar | TdsDataType::NVarChar | TdsDataType::NText => EncodingType::Utf16,
        _ => match spec_collation_of(metadata) {
            Some(c) => if c.utf8() {
                EncodingType::Utf8
            } else {
                EncodingType::LcidBased(c)
            },
            None => EncodingType::DelayedSet,
        },
    }
}

/// The encoding of a column's character data.
pub fn get_encoding_type(metadata: &ColumnMetadata) -> (e: EncodingType)
    ensures
        e == spec_encoding_type(metadata),
{
    match metadata.data_type {
        TdsDataType::NChar | TdsDataType::NVarChar | TdsDataType::NText => EncodingType::Utf16,
        _ => {
            let collation: Option<SqlCollation> = match metadata.type_info.type_info_variant {
                TypeInfoVariant::VarLenString(_, _, c) => c,
                TypeInfoVariant::PartialLen(_, c) => c,
                _ => None,
            };
            match collation {
                Some(c) => if c.utf8() {
                    EncodingType::Utf8
                } else {
                    EncodingType::LcidBased(c)
                },
                None => EncodingType::DelayedSet,
            }
        },
    }
}

} // verus!
