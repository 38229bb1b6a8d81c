//! Column types and value formats, identified as PostgreSQL identifies them.

use vstd::prelude::*;
use vstd::std_specs::convert::FromSpecImpl;
use vstd::std_specs::convert::TryFromSpecImpl;
use crate::protocol::codec::ProtocolError;

verus! {

/// A column type, named by its PostgreSQL type OID.
#[derive(Debug, Copy, Clone, PartialEq, Eq, Structural)]
pub enum DataTypeOid {
    Unspecified,
    Int2,
    Int4,
    Int8,
    Float4,
    Float8,
    Text,
    /// An OID outside the supported set, carried through unchanged.
    Unknown(u32),
}

impl DataTypeOid {
    /// The OID that stands for this type on the wire.
    pub open spec fn oid(self) -> u32 {
        match self {
            DataTypeOid::Unspecified => 0,
            DataTypeOid::Int2 => 21,
            DataTypeOid::Int4 => 23,
            DataTypeOid::Int8 => 20,
            DataTypeOid::Float4 => 700,
            DataTypeOid::Float8 => 701,
            DataTypeOid::Text => 25,
            DataTypeOid::Unknown(other) => other,
        }
    }

    /// The type that an OID stands for.
    pub open spec fn of_oid(value: u32) -> DataTypeOid {
        if value == 0 {
            DataTypeOid::Unspecified
        } else if value == 21 {
            DataTypeOid::Int2
        } else if value == 23 {
            DataTypeOid::Int4
        } else if value == 20 {
            DataTypeOid::Int8
        } else if value == 700 {
            DataTypeOid::Float4
        } else if value == 701 {
            DataTypeOid::Float8
        } else if value == 25 {
            DataTypeOid::Text
        } else {
            DataTypeOid::Unknown(value)
        }
    }

    /// Whether the type belongs to the supported set, whose wire size is known.
    pub open spec fn is_known(self) -> bool {
        !(self is Unknown)
    }

    /// The number of bytes a value of this type takes on the wire; -1 when
    /// the length varies. Meaningful for the supported set only.
    pub open spec fn wire_size(self) -> i16 {
        match self {
            DataTypeOid::Unspecified => 0,
            DataTypeOid::Int2 => 2,
            DataTypeOid::Int4 => 4,
            DataTypeOid::Int8 => 8,
            DataTypeOid::Float4 => 4,
            DataTypeOid::Float8 => 8,
            DataTypeOid::Text => -1i16,
            DataTypeOid::Unknown(_) => 0,
        }
    }

    /// The wire size of a supported type. An unknown OID has none.
    pub fn size_bytes(&self) -> (size: i16)
        requires
            self.is_known(),
        ensures
            size == self.wire_size(),
    {
        match self {
            DataTypeOid::Unspecified => 0,
            DataTypeOid::Int2 => 2,
            DataTypeOid::Int4 => 4,
            DataTypeOid::Int8 => 8,
            DataTypeOid::Float4 => 4,
            DataTypeOid::Float8 => 8,
            DataTypeOid::Text => -1,
            DataTypeOid::Unknown(_) => 0,
        }
    }

    /// The OID that stands for this type on the wire.
    pub fn to_oid(&self) -> (oid: u32)
        ensures
            oid == self.oid(),
    {
        match self {
            DataTypeOid::Unspecified => 0,
            DataTypeOid::Int2 => 21,
            DataTypeOid::Int4 => 23,
            DataTypeOid::Int8 => 20,
            DataTypeOid::Float4 => 700,
            DataTypeOid::Float8 => 701,
            DataTypeOid::Text => 25,
            DataTypeOid::Unknown(other) => *other,
        }
    }

    /// Tells whether the type belongs to the supported set.
    pub fn is_supported(&self) -> (known: bool)
        ensures
            known == self.is_known(),
    {
        match self {
            DataTypeOid::Unknown(_) => false,
            _ => true,
        }
    }
}

impl From<u32> for DataTypeOid {
    fn from(value: u32) -> (data_type: Self) {
        if value == 0 {
            DataTypeOid::Unspecified
        } else if value == 21 {
            DataTypeOid::Int2
        } else if value == 23 {
            DataTypeOid::Int4
        } else if value == 20 {
            DataTypeOid::Int8
        } else if value == 700 {
            DataTypeOid::Float4
        } else if value == 701 {
            DataTypeOid::Float8
        } else if value == 25 {
            DataTypeOid::Text
        } else {
            DataTypeOid::Unknown(value)
        }
    }
}

impl FromSpecImpl<u32> for DataTypeOid {
    open spec fn obeys_from_spec() -> bool {
        true
    }

    open spec fn from_spec(value: u32) -> Self {
        DataTypeOid::of_oid(value)
    }
}

impl From<DataTypeOid> for u32 {
    fn from(value: DataTypeOid) -> (oid: Self) {
        value.to_oid()
    }
}

impl FromSpecImpl<DataTypeOid> for u32 {
    open spec fn obeys_from_spec() -> bool {
        true
    }

    open spec fn from_spec(value: DataTypeOid) -> Self {
        value.oid()
    }
}

/// Every OID comes back from the type it is read as.
pub proof fn lemma_oid_round_trip(value: u32)
    ensures
        DataTypeOid::of_oid(value).oid() == value,
{
}

/// Every type comes back from its OID, except an `Unknown` that holds the
/// OID of a supported type, which is read as that type.
pub proof fn lemma_data_type_round_trip(data_type: DataTypeOid)
    ensures
        DataTypeOid::of_oid(data_type.oid()).oid() == data_type.oid(),
        data_type.is_known() ==> DataTypeOid::of_oid(data_type.oid()) == data_type,
        data_type matches DataTypeOid::Unknown(other) ==> (DataTypeOid::of_oid(data_type.oid())
            == data_type <==> !DataTypeOid::of_oid(other).is_known()),
{
}

/// How column values are written: as text, or in binary.
#[derive(Debug, Copy, Clone, PartialEq, Eq, Structural)]
pub enum FormatCode {
    Text,
    Binary,
}

impl FormatCode {
    /// The number that stands for the format on the wire.
    pub open spec fn number(self) -> i16 {
        match self {
            FormatCode::Text => 0,
            FormatCode::Binary => 1,
        }
    }

    /// The format that a number stands for, if any.
    pub open spec fn of_number(value: i16) -> Option<FormatCode> {
        if value == 0 {
            Some(FormatCode::Text)
        } else if value == 1 {
            Some(FormatCode::Binary)
        } else {
            None
        }
    }

    /// The format's number on the wire.
    pub fn code(&self) -> (code: i16)
        ensures
            code == self.number(),
    {
        match self {
            FormatCode::Text => 0,
            FormatCode::Binary => 1,
        }
    }
}

impl TryFrom<i16> for FormatCode {
    type Error = ProtocolError;

    fn try_from(value: i16) -> (format: Result<Self, Self::Error>) {
        if value == 0 {
            Ok(FormatCode::Text)
        } else if value == 1 {
            Ok(FormatCode::Binary)
        } else {
            Err(ProtocolError::InvalidFormatCode(value))
        }
    }
}

impl TryFromSpecImpl<i16> for FormatCode {
    open spec fn obeys_try_from_spec() -> bool {
        true
    }

    open spec fn try_from_spec(value: i16) -> Result<Self, Self::Error> {
        match FormatCode::of_number(value) {
            Some(format) => Ok(format),
            None => Err(ProtocolError::InvalidFormatCode(value)),
        }
    }
}

/// A format's number is read back as that format.
pub proof fn lemma_format_code_round_trip(format: FormatCode)
    ensures
        FormatCode::of_number(format.number()) == Some(format),
{
}

} // verus!
