//! Core data of the analysis: symbols, source positions, types, named
//! entities and diagnostics.
use vstd::prelude::*;

verus! {

/// An interned identifier.
#[derive(Clone, Copy, Debug, PartialEq, Eq, Structural)]
pub struct Symbol {
    pub id: usize,
}

/// A range of characters in one source file.
#[derive(Clone, Copy, Debug, PartialEq, Eq, Structural)]
pub struct SrcPos {
    pub source: usize,
    pub start: usize,
    pub end: usize,
}

/// A reference to a type: the type itself and its base type, both as
/// indexes into the type table of the analysis context.
#[derive(Clone, Copy, Debug, PartialEq, Eq, Structural)]
pub struct TypeEnt {
    pub id: usize,
    pub base: usize,
}

impl TypeEnt {
    pub open spec fn spec_base_type(self) -> TypeEnt {
        TypeEnt { id: self.base, base: self.base }
    }

    /// The base type of this type (a base type is its own base).
    pub fn base_type(&self) -> (r: TypeEnt)
        ensures
            r == self.spec_base_type(),
    {
        TypeEnt { id: self.base, base: self.base }
    }
}

/// A record element declaration.
#[derive(Clone, Copy, Debug, PartialEq, Eq, Structural)]
pub struct ElementDecl {
    pub designator: Symbol,
    pub typ: TypeEnt,
}

/// What a type is made of; only what association analysis reads.
#[derive(Clone, Debug)]
pub enum TypeKind {
    Integer,
    Enumeration,
    Record(Vec<ElementDecl>),
    /// An array with the given number of index dimensions.
    Array { dims: usize, elem: TypeEnt },
    Other,
}

/// A subprogram parameter as seen by overload resolution.
#[derive(Clone, Copy, Debug, PartialEq, Eq, Structural)]
pub struct Param {
    pub typ: TypeEnt,
    pub has_default: bool,
}

/// The profile of a subprogram: its parameters and, for a function, the
/// return type.
#[derive(Clone, Debug)]
pub struct Signature {
    pub params: Vec<Param>,
    pub return_type: Option<TypeEnt>,
}

impl Signature {
    /// A call with exactly one positional argument of type `typ` matches
    /// this profile: the first parameter has the same base type and every
    /// other parameter has a default.
    pub open spec fn spec_single_parameter(&self, typ: TypeEnt) -> bool {
        &&& self.params@.len() >= 1
        &&& self.params@[0].typ.base == typ.base
        &&& forall|i: int| 1 <= i < self.params@.len() ==> #[trigger] self.params@[i].has_default
    }

    pub fn can_be_called_with_single_parameter(&self, typ: &TypeEnt) -> (r: bool)
        ensures
            r == self.spec_single_parameter(*typ),
    {
        if self.params.len() == 0 || self.params[0].typ.base != typ.base {
            return false;
        }
        let mut i: usize = 1;
        while i < self.params.len()
            invariant
                1 <= i <= self.params@.len(),
                forall|j: int| 1 <= j < i ==> #[trigger] self.params@[j].has_default,
            decreases self.params@.len() - i,
        {
            if !self.params[i].has_default {
                return false;
            }
            i = i + 1;
        }
        true
    }
}

/// The kind of a declared entity.
#[derive(Clone, Debug)]
pub enum EntityKind {
    /// A constant, signal, variable, file or other object of a type.
    Object(TypeEnt),
    /// A type or subtype declaration.
    Type(TypeEnt),
    /// A subprogram, or an alias of one.
    Subprogram(Signature),
    /// An enumeration literal of the given type.
    EnumLiteral(TypeEnt),
    /// A record element.
    ElementDeclaration(TypeEnt),
    /// Anything else: components, attributes, packages, non-subprogram aliases.
    Other,
}

impl EntityKind {
    /// Only subprograms and enumeration literals may share a designator.
    pub open spec fn spec_overloadable(&self) -> bool {
        self is Subprogram || self is EnumLiteral
    }

    pub fn is_overloadable(&self) -> (r: bool)
        ensures
            r == self.spec_overloadable(),
    {
        match self {
            EntityKind::Subprogram(_) | EntityKind::EnumLiteral(_) => true,
            _ => false,
        }
    }
}

/// A declared entity.
#[derive(Clone, Debug)]
pub struct NamedEntity {
    pub designator: Symbol,
    pub kind: EntityKind,
    pub decl_pos: Option<SrcPos>,
}

/// Identifies an entity: the region it was declared in and its place there.
#[derive(Clone, Copy, Debug, PartialEq, Eq, Structural)]
pub struct EntityId {
    pub region: usize,
    pub index: usize,
}

/// The kind of interface list a formal region stands for.
#[derive(Clone, Copy, Debug, PartialEq, Eq, Structural)]
pub enum InterfaceListType {
    Port,
    Generic,
    Parameter,
}

/// What went wrong.
#[derive(Clone, Debug, PartialEq, Eq)]
pub enum DiagnosticKind {
    /// The name cannot denote a formal.
    InvalidFormal,
    /// The call around a formal is not a usable conversion.
    InvalidFormalConversion,
    /// A conversion names an entity that is neither a type nor a function.
    ExpectedFunction,
    /// More than one function of this name accepts the formal; the
    /// candidates stand in the related locations.
    AmbiguousCall(Symbol),
    /// No function of this name accepts a single argument of the type.
    NoFunctionAccepting(Symbol, TypeEnt),
    /// The type has no record element of this name.
    NoSuchElement(Symbol),
    /// The number of indexes does not match the array's dimensions.
    IndexMismatch,
    /// A formal without a default was not associated.
    NoAssociation(InterfaceListType, Symbol),
    /// An actual has no formal to go to.
    UnexpectedExtraArgument,
    /// An actual is not of the type that its formal needs.
    TypeMismatch(TypeEnt),
    /// A homograph of an earlier declaration in the same region.
    Duplicate(Symbol),
}

/// An error at a position, with related locations (earlier declarations,
/// candidates).
#[derive(Clone, Debug, PartialEq, Eq)]
pub struct Diagnostic {
    pub pos: SrcPos,
    pub kind: DiagnosticKind,
    pub related: Vec<SrcPos>,
}

/// A diagnostic as a mathematical value.
pub struct DiagnosticView {
    pub pos: SrcPos,
    pub kind: DiagnosticKind,
    pub related: Seq<SrcPos>,
}

impl View for Diagnostic {
    type V = DiagnosticView;

    open spec fn view(&self) -> DiagnosticView {
        DiagnosticView { pos: self.pos, kind: self.kind, related: self.related@ }
    }
}

/// A diagnostic with no related location.
pub open spec fn plain_error(pos: SrcPos, kind: DiagnosticKind) -> DiagnosticView {
    DiagnosticView { pos, kind, related: Seq::empty() }
}

/// A result whose error is seen through its view.
pub open spec fn view_result<T>(r: Result<T, Diagnostic>) -> Result<T, DiagnosticView> {
    match r {
        Ok(v) => Ok(v),
        Err(d) => Err(d@),
    }
}

impl Diagnostic {
    pub fn error(pos: SrcPos, kind: DiagnosticKind) -> (r: Diagnostic)
        ensures
            r@ == plain_error(pos, kind),
    {
        Diagnostic { pos, kind, related: Vec::new() }
    }
}

} // verus!
