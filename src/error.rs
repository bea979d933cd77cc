use vstd::prelude::*;
use crate::ast::{Identifier, RExp};
use crate::lexer::{Location, Token};

verus! {

/// Everything that stops a compilation.
#[derive(Debug)]
pub enum CompileError {
    /// A character or word that no token starts with.
    IllegalToken(Token),
    /// A token where the grammar allows none of its kind.
    UnexpectedToken(Token),
    /// An expression that is no name, on the left of `=`.
    RExpOnLHS(RExp),
    ExpectedExpression(Location),
    ExpectedIdent(Location),
    ExpectedEBrace(Location),
    ExpectedECurly(Location),
    ExpectedBlock(Location),
    ExpectedNewline(Location),
    /// Inside the parser only: the construct asked for does not start at this token.
    NotFound,
    /// A name used where no binding of it is visible.
    UndeclaredIdent(Identifier),
    /// A name read while its visible binding holds no value yet.
    UninitializedIdent(Identifier),
    /// The frame or a label counter would outgrow its machine integer.
    LimitExceeded,
}

} // verus!
