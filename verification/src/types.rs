//! The type system used for type checking: type kinds, literal values,
//! coercion between kinds, and casting of literal values.

use vstd::prelude::*;

verus! {

/// The kind of a SQL data type.
#[derive(Debug, Clone, Copy, PartialEq, Eq, Structural)]
pub enum DataTypeKind {
    /// 32-bit signed integer.
    Int32,
    /// 64-bit signed integer.
    Int64,
    /// Boolean.
    Bool,
    /// Character string.
    Varchar,
}

/// A literal value as produced by the parser and carried by bound expressions.
#[derive(Debug, PartialEq, Eq)]
pub enum DataValue {
    Int32(i32),
    Int64(i64),
    Bool(bool),
    Varchar(String),
    Null,
}

impl Clone for DataValue {
    fn clone(&self) -> (res: Self)
        ensures
            res == *self,
    {
        match self {
            DataValue::Int32(x) => DataValue::Int32(*x),
            DataValue::Int64(x) => DataValue::Int64(*x),
            DataValue::Bool(b) => DataValue::Bool(*b),
            DataValue::Varchar(s) => DataValue::Varchar(s.clone()),
            DataValue::Null => DataValue::Null,
        }
    }
}

impl DataValue {
    /// The type kind of this value; a null value has no kind.
    pub open spec fn spec_kind(self) -> Option<DataTypeKind> {
        match self {
            DataValue::Int32(_) => Some(DataTypeKind::Int32),
            DataValue::Int64(_) => Some(DataTypeKind::Int64),
            DataValue::Bool(_) => Some(DataTypeKind::Bool),
            DataValue::Varchar(_) => Some(DataTypeKind::Varchar),
            DataValue::Null => None,
        }
    }

    /// The type kind of this value; `None` for a null value.
    pub fn kind(&self) -> (r: Option<DataTypeKind>)
        ensures
            r == self.spec_kind(),
    {
        match self {
            DataValue::Int32(_) => Some(DataTypeKind::Int32),
            DataValue::Int64(_) => Some(DataTypeKind::Int64),
            DataValue::Bool(_) => Some(DataTypeKind::Bool),
            DataValue::Varchar(_) => Some(DataTypeKind::Varchar),
            DataValue::Null => None,
        }
    }
}

/// The common kind two operand kinds coerce to, if any: identical kinds stay,
/// and the two integer kinds widen to the 64-bit one.
pub open spec fn spec_common_kind(a: DataTypeKind, b: DataTypeKind) -> Option<DataTypeKind> {
    if a == b {
        Some(a)
    } else if (a == DataTypeKind::Int32 && b == DataTypeKind::Int64) || (a == DataTypeKind::Int64
        && b == DataTypeKind::Int32) {
        Some(DataTypeKind::Int64)
    } else {
        None
    }
}

/// Executable counterpart of [`spec_common_kind`].
pub fn common_kind(a: DataTypeKind, b: DataTypeKind) -> (r: Option<DataTypeKind>)
    ensures
        r == spec_common_kind(a, b),
{
    if a == b {
        Some(a)
    } else if (matches!(a, DataTypeKind::Int32) && matches!(b, DataTypeKind::Int64)) || (matches!(a, DataTypeKind::Int64) && matches!(b, DataTypeKind::Int32)) {
        Some(DataTypeKind::Int64)
    } else {
        None
    }
}

/// What casting the literal `v` to kind `k` yields: the identity on a value
/// already of that kind, widening or (range-checked) narrowing between the
/// integer kinds, null to null, and an error for every other combination.
pub open spec fn spec_cast_value(v: DataValue, k: DataTypeKind) -> Option<DataValue> {
    match v {
        DataValue::Null => Some(DataValue::Null),
        DataValue::Int32(x) => match k {
            DataTypeKind::Int32 => Some(DataValue::Int32(x)),
            DataTypeKind::Int64 => Some(DataValue::Int64(x as i64)),
            _ => None,
        },
        DataValue::Int64(x) => match k {
            DataTypeKind::Int64 => Some(DataValue::Int64(x)),
            DataTypeKind::Int32 => if i32::MIN <= x <= i32::MAX {
                Some(DataValue::Int32(x as i32))
            } else {
                None
            },
            _ => None,
        },
        DataValue::Bool(b) => match k {
            DataTypeKind::Bool => Some(DataValue::Bool(b)),
            _ => None,
        },
        DataValue::Varchar(s) => match k {
            DataTypeKind::Varchar => Some(DataValue::Varchar(s)),
            _ => None,
        },
    }
}

/// Executable counterpart of [`spec_cast_value`]; `None` means the value
/// cannot be represented in the target kind.
pub fn cast_value(v: &DataValue, k: DataTypeKind) -> (r: Option<DataValue>)
    ensures
        r == spec_cast_value(*v, k),
{
    match v {
        DataValue::Null => Some(DataValue::Null),
        DataValue::Int32(x) => match k {
            DataTypeKind::Int32 => Some(DataValue::Int32(*x)),
            DataTypeKind::Int64 => Some(DataValue::Int64(*x as i64)),
            _ => None,
        },
        DataValue::Int64(x) => match k {
            DataTypeKind::Int64 => Some(DataValue::Int64(*x)),
            DataTypeKind::Int32 => {
                if i32::MIN as i64 <= *x && *x <= i32::MAX as i64 {
                    Some(DataValue::Int32(*x as i32))
                } else {
                    None
                }
            },
            _ => None,
        },
        DataValue::Bool(b) => match k {
            DataTypeKind::Bool => Some(DataValue::Bool(*b)),
            _ => None,
        },
        DataValue::Varchar(s) => match k {
            DataTypeKind::Varchar => Some(DataValue::Varchar(s.clone())),
            _ => None,
        },
    }
}

/// The display name of a type kind, used in type-mismatch errors.
pub open spec fn spec_kind_name(k: DataTypeKind) -> Seq<char> {
    match k {
        DataTypeKind::Int32 => "INT"@,
        DataTypeKind::Int64 => "BIGINT"@,
        DataTypeKind::Bool => "BOOLEAN"@,
        DataTypeKind::Varchar => "VARCHAR"@,
    }
}

/// Executable counterpart of [`spec_kind_name`].
pub fn kind_name(k: DataTypeKind) -> (r: String)
    ensures
        r@ == spec_kind_name(k),
{
    match k {
        DataTypeKind::Int32 => String::from_str("INT"),
        DataTypeKind::Int64 => String::from_str("BIGINT"),
        DataTypeKind::Bool => String::from_str("BOOLEAN"),
        DataTypeKind::Varchar => String::from_str("VARCHAR"),
    }
}

} // verus!
