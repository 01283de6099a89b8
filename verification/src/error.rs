//! The error type of bind operations. The first error found anywhere during
//! a bind aborts the whole operation and propagates unchanged to the caller.

use vstd::prelude::*;
use crate::ast::Ident;
use crate::name::spec_idents_view;
use crate::types::{DataTypeKind, DataValue};

verus! {

/// The error type of bind operations.
#[derive(Debug, PartialEq, Eq)]
pub enum BindError {
    /// The referenced database does not exist.
    InvalidDatabase(String),
    /// The referenced schema does not exist.
    InvalidSchema(String),
    /// The referenced table does not exist.
    InvalidTable(String),
    /// The referenced column does not exist.
    InvalidColumn(String),
    /// A table name or alias was registered twice in one scope.
    DuplicatedTable(String),
    /// Two declared columns share a name in CREATE TABLE.
    DuplicatedColumn(String),
    /// A malformed or unsupported expression shape, or an arity mismatch.
    InvalidExpression(String),
    /// A null value was bound into a non-nullable column.
    NotNullableColumn(String),
    /// The operand types of a binary operation are neither identical nor
    /// coercible; the payload names the two observed types.
    BinaryOpTypeMismatch(String, String),
    /// An unqualified column name matched more than one visible table.
    AmbiguousColumn,
    /// An object name has more than two qualifying parts.
    InvalidTableName(Vec<Ident>),
    /// A recognized but intentionally unimplemented statement kind.
    NotSupportedTSQL,
    /// A statement shape not recognized at all.
    InvalidSQL,
    /// A literal value cannot be represented in its target type.
    CastError(DataValue, DataTypeKind),
    /// A named, domain-specific binding failure with free-form detail.
    BindFunctionError(String),
}

/// The mathematical image of a [`BindError`]: the same taxonomy with every
/// text payload taken as its character sequence, so that contracts can state
/// errors exactly.
pub enum SpecBindError {
    InvalidDatabase(Seq<char>),
    InvalidSchema(Seq<char>),
    InvalidTable(Seq<char>),
    InvalidColumn(Seq<char>),
    DuplicatedTable(Seq<char>),
    DuplicatedColumn(Seq<char>),
    InvalidExpression(Seq<char>),
    NotNullableColumn(Seq<char>),
    BinaryOpTypeMismatch(Seq<char>, Seq<char>),
    AmbiguousColumn,
    InvalidTableName(Seq<Seq<char>>),
    NotSupportedTSQL,
    InvalidSQL,
    CastError(DataValue, DataTypeKind),
    BindFunctionError(Seq<char>),
}

/// The image of a bind error in the mathematical error type.
pub open spec fn spec_err(e: BindError) -> SpecBindError {
    match e {
        BindError::InvalidDatabase(s) => SpecBindError::InvalidDatabase(s@),
        BindError::InvalidSchema(s) => SpecBindError::InvalidSchema(s@),
        BindError::InvalidTable(s) => SpecBindError::InvalidTable(s@),
        BindError::InvalidColumn(s) => SpecBindError::InvalidColumn(s@),
        BindError::DuplicatedTable(s) => SpecBindError::DuplicatedTable(s@),
        BindError::DuplicatedColumn(s) => SpecBindError::DuplicatedColumn(s@),
        BindError::InvalidExpression(s) => SpecBindError::InvalidExpression(s@),
        BindError::NotNullableColumn(s) => SpecBindError::NotNullableColumn(s@),
        BindError::BinaryOpTypeMismatch(a, b) => SpecBindError::BinaryOpTypeMismatch(a@, b@),
        BindError::AmbiguousColumn => SpecBindError::AmbiguousColumn,
        BindError::InvalidTableName(v) => SpecBindError::InvalidTableName(spec_idents_view(v@)),
        BindError::NotSupportedTSQL => SpecBindError::NotSupportedTSQL,
        BindError::InvalidSQL => SpecBindError::InvalidSQL,
        BindError::CastError(v, k) => SpecBindError::CastError(v, k),
        BindError::BindFunctionError(s) => SpecBindError::BindFunctionError(s@),
    }
}

} // verus!
