//! Values of the vector type.

use crate::bytes::{le_nat, le_read_u32, lemma_le_nat_bound, lemma_pow256};
use crate::datatypes::sqldatatypes::{
    VectorBaseType, VectorLayoutFormat, VectorLayoutVersion, VECTOR_BASE_TYPE_FLOAT32,
    VECTOR_HEADER_SIZE, VECTOR_LAYOUT_FORMAT_V1, VECTOR_LAYOUT_VERSION_V1, VECTOR_MAX_DIMENSIONS,
};
use crate::error::{Error, ErrorKind, TdsResult};
use crate::text::number_message;
use vstd::prelude::*;
use vstd::string::StringExecFns;

verus! {

/// The four-byte elements that a run of bytes holds, least significant byte first.
pub open spec fn vector_elements(raw: Seq<u8>) -> Seq<u32> {
    Seq::new(raw.len() / 4, |i: int| le_nat(raw, 4 * i, 4) as u32)
}

/// Whether a vector may have this many dimensions.
pub open spec fn valid_dimensions(n: nat) -> bool {
    1 <= n <= VECTOR_MAX_DIMENSIONS
}

/// A vector of single-precision numbers, each held as its IEEE 754 bit pattern.
#[derive(Debug, PartialEq, Eq)]
pub struct SqlVector {
    dimensions: Vec<u32>,
}

impl Clone for SqlVector {
    fn clone(&self) -> (v: SqlVector)
        ensures
            v@ == self@,
    {
        proof {
            use_type_invariant(self);
        }
        SqlVector { dimensions: self.dimensions.clone() }
    }
}

impl View for SqlVector {
    type V = Seq<u32>;

    /// The bit patterns of the elements.
    closed spec fn view(&self) -> Seq<u32> {
        self.dimensions@
    }
}

impl SqlVector {
    /// A vector has as many dimensions as one can have.
    #[verifier::type_invariant]
    spec fn well_formed(self) -> bool {
        valid_dimensions(self.dimensions@.len())
    }

    /// A vector of these elements, given by their bit patterns; a usage error for a number of
    /// dimensions that a vector cannot have.
    pub fn try_from_f32(dimensions: Vec<u32>) -> (r: TdsResult<SqlVector>)
        ensures
            valid_dimensions(dimensions@.len()) ==> (r matches Ok(v) && v@ == dimensions@),
            !valid_dimensions(dimensions@.len()) ==> (r matches Err(e) && e.kind()
                == ErrorKind::Usage),
    {
        if dimensions.len() == 0 {
            return Err(
                Error::UsageError(String::from_str("Vector must have at least one dimension")),
            );
        }
        if dimensions.len() > VECTOR_MAX_DIMENSIONS {
            return Err(
                Error::UsageError(
                    number_message(
                        "Vector dimension count ",
                        dimensions.len() as u128,
                        " exceeds maximum",
                    ),
                ),
            );
        }
        Ok(SqlVector { dimensions })
    }

    /// A vector out of the bytes that follow a vector's header, and three fields of the header.
    /// A protocol error where a field is unknown, where the bytes are no whole number of elements,
    /// or where there are too few or too many.
    pub fn try_from_raw(
        layout_format: u8,
        layout_version: u8,
        base_type: u8,
        raw_bytes: Vec<u8>,
    ) -> (r: TdsResult<SqlVector>)
        ensures
            match Self::spec_from_raw(layout_format, layout_version, base_type, raw_bytes@) {
                Some(elements) => r matches Ok(v) && v@ == elements,
                None => r matches Err(e) && e.kind() == ErrorKind::Protocol,
            },
    {
        let _format = VectorLayoutFormat::from_code(layout_format)?;
        let _version = VectorLayoutVersion::from_code(layout_version)?;
        let _base = VectorBaseType::from_code(base_type)?;
        if raw_bytes.len() % 4 != 0 {
            return Err(
                Error::ProtocolError(
                    number_message(
                        "Vector data length ",
                        raw_bytes.len() as u128,
                        " is not a whole number of elements",
                    ),
                ),
            );
        }
        let n: usize = raw_bytes.len() / 4;
        if n == 0 {
            return Err(
                Error::ProtocolError(String::from_str("Vector must have at least one dimension")),
            );
        }
        if n > VECTOR_MAX_DIMENSIONS {
            return Err(
                Error::ProtocolError(
                    number_message("Vector dimension count ", n as u128, " exceeds maximum"),
                ),
            );
        }
        let mut dimensions: Vec<u32> = Vec::new();
        let mut i: usize = 0;
        while i < n
            invariant
                i <= n,
                n == raw_bytes@.len() / 4,
                n <= VECTOR_MAX_DIMENSIONS,
                dimensions@ == vector_elements(raw_bytes@).take(i as int),
            decreases n - i,
        {
            dimensions.push(le_read_u32(raw_bytes.as_slice(), 4 * i));
            proof {
                lemma_le_nat_bound(raw_bytes@, 4 * i as int, 4);
                lemma_pow256();
                assert(dimensions@ =~= vector_elements(raw_bytes@).take(i + 1));
            }
            i += 1;
        }
        assert(dimensions@ =~= vector_elements(raw_bytes@));
        Ok(SqlVector { dimensions })
    }

    /// The elements of the vector that these bytes make, where they make one.
    pub open spec fn spec_from_raw(
        layout_format: u8,
        layout_version: u8,
        base_type: u8,
        raw: Seq<u8>,
    ) -> Option<Seq<u32>> {
        if layout_format == VECTOR_LAYOUT_FORMAT_V1 && layout_version == VECTOR_LAYOUT_VERSION_V1
            && base_type == VECTOR_BASE_TYPE_FLOAT32 && raw.len() % 4 == 0 && valid_dimensions(
            raw.len() / 4,
        ) {
            Some(vector_elements(raw))
        } else {
            None
        }
    }

    /// The bit patterns of the elements.
    pub fn as_f32(&self) -> (r: Option<&[u32]>)
        ensures
            r matches Some(s) && s@ == self@,
    {
        Some(self.dimensions.as_slice())
    }

    /// The number of dimensions.
    pub fn dimension_count(&self) -> (n: usize)
        ensures
            n == self@.len(),
    {
        self.dimensions.len()
    }

    /// The size of the value on the wire, header included.
    pub fn total_size(&self) -> (n: usize)
        ensures
            n == VECTOR_HEADER_SIZE + 4 * self@.len(),
    {
        proof {
            use_type_invariant(self);
        }
        VECTOR_HEADER_SIZE + self.dimensions.len() * 4
    }

    /// The element at an index, as its bit pattern.
    pub fn element(&self, i: usize) -> (x: u32)
        requires
            i < self@.len(),
        ensures
            x == self@[i as int],
    {
        self.dimensions[i]
    }
}

} // verus!
