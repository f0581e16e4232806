//! The parsed names, expressions and association lists that analysis reads.
use vstd::prelude::*;
use crate::types::{SrcPos, Symbol};

verus! {

/// A syntax node with its position.
#[derive(Debug)]
pub struct WithPos<T> {
    pub item: T,
    pub pos: SrcPos,
}

/// A name with its position.
#[derive(Debug)]
pub struct NamePos {
    pub item: Name,
    pub pos: SrcPos,
}

/// An expression with its position.
#[derive(Debug)]
pub struct ExprPos {
    pub item: Expression,
    pub pos: SrcPos,
}

/// An actual with its position.
#[derive(Debug)]
pub struct ActualPos {
    pub item: ActualPart,
    pub pos: SrcPos,
}

/// A name as written.
#[derive(Debug)]
pub enum Name {
    /// `foo`
    Designator(Symbol),
    /// `prefix.suffix`
    Selected(Box<NamePos>, WithPos<Symbol>),
    /// `prefix.all`
    SelectedAll(Box<NamePos>),
    /// `prefix(index, ...)`
    Indexed(Box<NamePos>, Vec<ExprPos>),
    /// `prefix(left to right)`
    Slice(Box<NamePos>, DiscreteRange),
    /// `prefix'attr`
    Attribute(Box<NamePos>, Symbol),
    /// `name(args)`: a call, or an indexing spelled like one.
    FunctionCall(Box<CallOrIndexed>),
    /// `<< ... >>`
    External,
}

/// The shared form of a function call and an indexed name.
#[derive(Debug)]
pub struct CallOrIndexed {
    pub name: NamePos,
    pub parameters: Vec<AssociationElement>,
}

/// A discrete range of a slice.
#[derive(Debug)]
pub struct DiscreteRange {
    pub left: Expression,
    pub right: Expression,
}

/// An expression, as far as association analysis reads one.
#[derive(Debug)]
pub enum Expression {
    Integer(u64),
    Name(Box<Name>),
    /// Any other expression: its type is not known here.
    Other,
}

/// The actual side of an association.
#[derive(Debug)]
pub enum ActualPart {
    Expression(Expression),
    Open,
}

/// `formal => actual`, or a positional `actual`.
#[derive(Debug)]
pub struct AssociationElement {
    pub formal: Option<NamePos>,
    pub actual: ActualPos,
}

/// The designator at the far left of a name, if it has one.
pub open spec fn spec_prefix(name: Name) -> Option<Symbol>
    decreases name,
{
    match name {
        Name::Designator(d) => Some(d),
        Name::Selected(p, _) => spec_prefix(p.item),
        Name::SelectedAll(p) => spec_prefix(p.item),
        Name::Indexed(p, _) => spec_prefix(p.item),
        Name::Slice(p, _) => spec_prefix(p.item),
        Name::Attribute(p, _) => spec_prefix(p.item),
        Name::FunctionCall(f) => spec_prefix(f.name.item),
        Name::External => None,
    }
}

impl Name {
    pub fn prefix(&self) -> (r: Option<Symbol>)
        ensures
            r == spec_prefix(*self),
        decreases self,
    {
        match self {
            Name::Designator(d) => Some(*d),
            Name::Selected(p, _) => p.item.prefix(),
            Name::SelectedAll(p) => p.item.prefix(),
            Name::Indexed(p, _) => p.item.prefix(),
            Name::Slice(p, _) => p.item.prefix(),
            Name::Attribute(p, _) => p.item.prefix(),
            Name::FunctionCall(f) => f.name.item.prefix(),
            Name::External => None,
        }
    }
}

/// Every argument is positional and not `open`: the call can be read as
/// an indexed name with that many indexes.
pub open spec fn spec_all_positional(params: Seq<AssociationElement>) -> bool {
    forall|i: int|
        0 <= i < params.len() ==> (#[trigger] params[i]).formal is None && params[i].actual.item is Expression
}

pub fn all_positional(params: &Vec<AssociationElement>) -> (r: bool)
    ensures
        r == spec_all_positional(params@),
{
    let mut i: usize = 0;
    while i < params.len()
        invariant
            i <= params@.len(),
            forall|j: int|
                0 <= j < i ==> (#[trigger] params@[j]).formal is None && params@[j].actual.item is Expression,
        decreases params@.len() - i,
    {
        if params[i].formal.is_some() {
            return false;
        }
        match &params[i].actual.item {
            ActualPart::Open => {
                return false;
            }
            ActualPart::Expression(_) => {}
        }
        i = i + 1;
    }
    true
}

/// The argument of a conversion around a formal: the call has exactly one
/// argument, it is positional, and it is a bare designator.
pub open spec fn spec_conversion_argument(params: Seq<AssociationElement>) -> Option<WithPos<Symbol>> {
    if params.len() == 1 && params[0].formal is None {
        match params[0].actual.item {
            ActualPart::Expression(Expression::Name(n)) => match *n {
                Name::Designator(d) => Some(WithPos { item: d, pos: params[0].actual.pos }),
                _ => None,
            },
            _ => None,
        }
    } else {
        None
    }
}

pub fn to_formal_conversion_argument(parameters: &Vec<AssociationElement>) -> (r: Option<WithPos<Symbol>>)
    ensures
        r == spec_conversion_argument(parameters@),
{
    if parameters.len() != 1 || parameters[0].formal.is_some() {
        return None;
    }
    let actual = &parameters[0].actual;
    match &actual.item {
        ActualPart::Expression(Expression::Name(n)) => match &**n {
            Name::Designator(d) => Some(WithPos { item: *d, pos: actual.pos }),
            _ => None,
        },
        _ => None,
    }
}

} // verus!
