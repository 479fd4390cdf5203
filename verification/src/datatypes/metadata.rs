//! The description of a column of a result set.

use crate::datatypes::sqldatatypes::{TdsDataType, TypeInfo, TypeInfoVariant};
use vstd::prelude::*;

verus! {

/// The length that a column of unlimited size declares.
pub const SHORTLEN_MAXVALUE: usize = 65535;

/// A column of a result set.
#[derive(Clone, Debug, PartialEq, Eq)]
pub struct ColumnMetadata {
    pub user_type: u32,
    pub flags: u16,
    pub type_info: TypeInfo,
    pub data_type: TdsDataType,
    pub column_name: String,
    pub multi_part_name: Option<String>,
}

impl ColumnMetadata {
    /// Whether the column's values come in chunks: types that always do, and character and binary
    /// columns of unlimited size.
    pub open spec fn spec_is_plp(&self) -> bool {
        match self.data_type {
            TdsDataType::Xml | TdsDataType::Json | TdsDataType::Udt => true,
            TdsDataType::BigVarChar
            | TdsDataType::BigVarBinary
            | TdsDataType::NVarChar => self.type_info.length == SHORTLEN_MAXVALUE,
            _ => false,
        }
    }

    /// Whether the column's values come in chunks.
    #[verifier::when_used_as_spec(spec_is_plp)]
    pub fn is_plp(&self) -> (b: bool)
        ensures
            b == self.spec_is_plp(),
    {
        match self.data_type {
            TdsDataType::Xml | TdsDataType::Json | TdsDataType::Udt => true,
            TdsDataType::BigVarChar
            | TdsDataType::BigVarBinary
            | TdsDataType::NVarChar => self.type_info.length == SHORTLEN_MAXVALUE,
            _ => false,
        }
    }

    /// The scale that the column's type carries, 0 where it carries none.
    pub open spec fn spec_get_scale(&self) -> u8 {
        match self.type_info.type_info_variant {
            TypeInfoVariant::VarLenScale(_, scale) => scale,
            TypeInfoVariant::VarLenPrecisionScale(_, _, _, scale) => scale,
            _ => 0,
        }
    }

    /// The scale that the column's type carries, 0 where it carries none.
    #[verifier::when_used_as_spec(spec_get_scale)]
    pub fn get_scale(&self) -> (scale: u8)
        ensures
            scale == self.spec_get_scale(),
    {
        match self.type_info.type_info_variant {
            TypeInfoVariant::VarLenScale(_, scale) => scale,
            TypeInfoVariant::VarLenPrecisionScale(_, _, _, scale) => scale,
            _ => 0,
        }
    }
}

} // verus!
