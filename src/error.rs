use crate::tok::{Token, TokenV};
use crate::types::{NameV, TypeName};
use vstd::prelude::*;

verus! {

/// Why a piece of declaration text was rejected.
#[derive(Debug, PartialEq, Clone)]
pub enum CompileError {
    /// A character outside the token alphabet, or a word that starts with a digit.
    UnexpectedCharacter(char),
    /// A token that the grammar does not allow where it stands.
    UnexpectedToken(Token),
    /// The tokens ran out in the middle of a statement.
    UnexpectedEof,
    /// Two fields of one aggregate share a name.
    DuplicateField(String),
    /// A struct or union body without any field.
    EmptyAggregate,
    /// Two declarators of one typedef statement share a name.
    DuplicateTypedefName(String),
    /// A typedef binds a name that the namespace already holds.
    DuplicateTypeName(TypeName),
    /// A tag is given a body that differs from its earlier one.
    ConflictingDefinition(TypeName),
}

/// The mathematical model of a `CompileError`.
pub enum ErrorV {
    UnexpectedCharacter(char),
    UnexpectedToken(TokenV),
    UnexpectedEof,
    DuplicateField(Seq<char>),
    EmptyAggregate,
    DuplicateTypedefName(Seq<char>),
    DuplicateTypeName(NameV),
    ConflictingDefinition(NameV),
}

impl View for CompileError {
    type V = ErrorV;

    open spec fn view(&self) -> ErrorV {
        match self {
            CompileError::UnexpectedCharacter(c) => ErrorV::UnexpectedCharacter(*c),
            CompileError::UnexpectedToken(t) => ErrorV::UnexpectedToken(t@),
            CompileError::UnexpectedEof => ErrorV::UnexpectedEof,
            CompileError::DuplicateField(n) => ErrorV::DuplicateField(n@),
            CompileError::EmptyAggregate => ErrorV::EmptyAggregate,
            CompileError::DuplicateTypedefName(n) => ErrorV::DuplicateTypedefName(n@),
            CompileError::DuplicateTypeName(n) => ErrorV::DuplicateTypeName(n@),
            CompileError::ConflictingDefinition(n) => ErrorV::ConflictingDefinition(n@),
        }
    }
}

} // verus!
