use crate::region::Located;
use vstd::prelude::*;

verus! {

/// The base of an integer literal that is not written in base 10.
#[derive(Clone, Copy, Debug, PartialEq, Eq, Structural)]
pub enum Base {
    Hex,
    Octal,
    Binary,
}

/// What may stand between two tokens without changing what they mean.
#[derive(Debug, PartialEq, Eq)]
pub enum CommentOrNewline<'a> {
    Newline,
    LineComment(&'a str),
}

/// A pattern as the parser reads it.
#[derive(Debug, PartialEq, Eq)]
pub enum Pattern<'a> {
    Identifier(&'a str),
    QualifiedIdentifier(&'a str),
    GlobalTag(&'a str),
    PrivateTag(&'a str),
    Apply(&'a Located<Pattern<'a>>, &'a [Located<Pattern<'a>>]),
    /// `{ x, y }`: each part is an identifier or a field with a pattern of its own.
    RecordDestructure(Vec<Located<Pattern<'a>>>),
    /// A field pattern such as `x: 0`, which only occurs inside a record.
    RecordField(&'a str, &'a Located<Pattern<'a>>),
    IntLiteral(&'a str),
    NonBase10Literal { string: &'a str, base: Base, is_negative: bool },
    FloatLiteral(&'a str),
    StrLiteral(&'a str),
    BlockStrLiteral(&'a [&'a str]),
    EmptyRecordLiteral,
    Underscore,
    SpaceBefore(&'a Pattern<'a>, &'a [CommentOrNewline<'a>]),
    SpaceAfter(&'a Pattern<'a>, &'a [CommentOrNewline<'a>]),
    /// A pattern in parentheses.
    Nested(&'a Pattern<'a>),
    Malformed(&'a str),
}

} // verus!
