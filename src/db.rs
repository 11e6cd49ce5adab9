use vstd::prelude::*;

verus! {

pub const OID_BOOL: u32 = 16;
pub const OID_NAME: u32 = 19;
pub const OID_INT8: u32 = 20;
pub const OID_INT2: u32 = 21;
pub const OID_INT4: u32 = 23;
pub const OID_TEXT: u32 = 25;
pub const OID_JSON: u32 = 114;
pub const OID_FLOAT4: u32 = 700;
pub const OID_FLOAT8: u32 = 701;
pub const OID_BPCHAR: u32 = 1042;
pub const OID_VARCHAR: u32 = 1043;
pub const OID_JSONB: u32 = 3802;

/// How a result column becomes JSON.
#[derive(Clone, Copy, Debug, PartialEq, Eq, Structural)]
pub enum ColumnKind {
    /// A boolean.
    Bool,
    /// A 16-, 32- or 64-bit integer, read as 64 bits.
    Integer,
    /// A 32- or 64-bit float, read as 64 bits.
    Float,
    /// A string type.
    Text,
    /// `json` or `jsonb`, passed through.
    Json,
    /// Any other type, which becomes null.
    Unsupported,
}

/// The JSON reading of a column with the type `oid`.
pub open spec fn kind_of_oid(oid: u32) -> ColumnKind {
    if oid == OID_BOOL {
        ColumnKind::Bool
    } else if oid == OID_INT2 || oid == OID_INT4 || oid == OID_INT8 {
        ColumnKind::Integer
    } else if oid == OID_FLOAT4 || oid == OID_FLOAT8 {
        ColumnKind::Float
    } else if oid == OID_TEXT || oid == OID_VARCHAR || oid == OID_BPCHAR || oid == OID_NAME {
        ColumnKind::Text
    } else if oid == OID_JSON || oid == OID_JSONB {
        ColumnKind::Json
    } else {
        ColumnKind::Unsupported
    }
}

/// How a column with the type `oid` is turned into JSON.
pub fn column_kind(oid: u32) -> (r: ColumnKind)
    ensures
        r == kind_of_oid(oid),
{
    if oid == OID_BOOL {
        ColumnKind::Bool
    } else if oid == OID_INT2 || oid == OID_INT4 || oid == OID_INT8 {
        ColumnKind::Integer
    } else if oid == OID_FLOAT4 || oid == OID_FLOAT8 {
        ColumnKind::Float
    } else if oid == OID_TEXT || oid == OID_VARCHAR || oid == OID_BPCHAR || oid == OID_NAME {
        ColumnKind::Text
    } else if oid == OID_JSON || oid == OID_JSONB {
        ColumnKind::Json
    } else {
        ColumnKind::Unsupported
    }
}

} // verus!
