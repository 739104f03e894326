use crate::collections::SendMap;
use crate::ident::Lowercase;
use crate::region::Region;
use crate::subs::Variable;
use vstd::prelude::*;

verus! {

#[derive(Debug)]
pub enum Type {
    Int,
    Float,
    Str,
    Variable(Variable),
    Function(Vec<Type>, Box<Type>),
    /// The types of a record's known fields, and the type of the rest of the record.
    Record(SendMap<Lowercase, Type>, Box<Type>),
}

/// What a type is built from, with the collections in it taken for what they hold.
pub enum TypeView {
    Int,
    Float,
    Str,
    Variable(Variable),
    Function(Seq<Type>, Type),
    Record(Map<Seq<char>, Type>, Type),
}

impl View for Type {
    type V = TypeView;

    open spec fn view(&self) -> TypeView {
        match self {
            Type::Int => TypeView::Int,
            Type::Float => TypeView::Float,
            Type::Str => TypeView::Str,
            Type::Variable(variable) => TypeView::Variable(*variable),
            Type::Function(args, ret) => TypeView::Function(args@, **ret),
            Type::Record(fields, ext) => TypeView::Record(fields@, **ext),
        }
    }
}

/// Why a pattern is expected to have some type.
#[derive(Debug)]
pub enum PReason {
    TypedArg { index: usize },
    CaseMatch { index: usize },
    ListEntry { index: usize },
    Tail,
}

/// The type that a pattern is expected to have.
#[derive(Debug)]
pub enum PExpected<T> {
    NoExpectation(T),
    ForReason(PReason, T, Region),
}

impl<T> PExpected<T> {
    pub open spec fn expected(self) -> T {
        match self {
            PExpected::NoExpectation(value) => value,
            PExpected::ForReason(_, value, _) => value,
        }
    }

    pub fn get_type(self) -> (value: T)
        ensures
            value == self.expected(),
    {
        match self {
            PExpected::NoExpectation(value) => value,
            PExpected::ForReason(_, value, _) => value,
        }
    }
}

/// What kind of pattern a constraint comes from.
#[derive(Clone, Copy, Debug, PartialEq, Eq, Structural)]
pub enum PatternCategory {
    Record,
    Int,
    Float,
    Str,
}

/// A demand on types that the solver has to meet.
#[derive(Debug)]
pub enum Constraint {
    /// The pattern in the region has the first type, and is expected to have the second.
    Pattern(Region, PatternCategory, Type, PExpected<Type>),
}

/// What a constraint demands.
pub enum ConstraintView {
    Pattern(Region, PatternCategory, TypeView, PExpected<Type>),
}

impl View for Constraint {
    type V = ConstraintView;

    open spec fn view(&self) -> ConstraintView {
        match self {
            Constraint::Pattern(region, category, typ, expected) => ConstraintView::Pattern(
                *region,
                *category,
                typ@,
                *expected,
            ),
        }
    }
}

/// The expected type is the one that was given, whatever the reason and the region.
pub proof fn reasons_do_not_change_the_type<T>(reason: PReason, value: T, region: Region)
    ensures
        PExpected::NoExpectation(value).expected() == value,
        PExpected::ForReason(reason, value, region).expected() == value,
{
}

} // verus!
