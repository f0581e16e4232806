//! The analysis context: the type table and the scopes, with the checks
//! that formal resolution delegates to them.
use vstd::prelude::*;
use crate::ast::{Expression, Name};
use crate::region::{EntitiesView, NamedEntities, Scopes};
use crate::types::{
    plain_error, view_result, Diagnostic, DiagnosticKind, DiagnosticView, ElementDecl, EntityKind, SrcPos,
    Symbol, TypeEnt, TypeKind,
};

verus! {

/// What analysis of one design unit reads: the types (a `TypeEnt` names
/// an index of `types`) and the declarative regions.
#[derive(Debug)]
pub struct AnalyzeContext {
    pub types: Vec<TypeKind>,
    pub scopes: Scopes,
}

/// The first element named `d` at or after `i`.
pub open spec fn first_element_from(elems: Seq<ElementDecl>, d: Symbol, i: int) -> Option<int>
    decreases elems.len() - i,
{
    if i < 0 || i >= elems.len() {
        None
    } else if elems[i].designator == d {
        Some(i)
    } else {
        first_element_from(elems, d, i + 1)
    }
}

impl AnalyzeContext {
    /// The kind of the base type of `t`; a type outside the table is `Other`.
    pub open spec fn base_kind(&self, t: TypeEnt) -> TypeKind {
        if t.base < self.types@.len() {
            self.types@[t.base as int]
        } else {
            TypeKind::Other
        }
    }

    /// The type of the record element `suffix` of a value of type `typ`.
    pub open spec fn spec_element_type(&self, prefix_pos: SrcPos, typ: TypeEnt, suffix: Symbol, suffix_pos: SrcPos) -> Result<TypeEnt, DiagnosticView> {
        match self.base_kind(typ) {
            TypeKind::Record(elems) => match first_element_from(elems@, suffix, 0) {
                Some(i) => Ok(elems@[i].typ),
                None => Err(plain_error(suffix_pos, DiagnosticKind::NoSuchElement(suffix))),
            },
            _ => Err(plain_error(prefix_pos, DiagnosticKind::InvalidFormal)),
        }
    }

    /// The element type of an array of type `typ` indexed `n` times.
    pub open spec fn spec_indexed_type(&self, pos: SrcPos, typ: TypeEnt, n: nat) -> Result<TypeEnt, DiagnosticView> {
        match self.base_kind(typ) {
            TypeKind::Array { dims, elem } => if dims == n {
                Ok(elem)
            } else {
                Err(plain_error(pos, DiagnosticKind::IndexMismatch))
            },
            _ => Err(plain_error(pos, DiagnosticKind::IndexMismatch)),
        }
    }

    /// Whether `expr` is an expression of type `target`: definitely
    /// (`Some(true)`), definitely not (`Some(false)`), or not known here
    /// (`None`) where it names an overloaded entity or is of another form.
    pub open spec fn spec_expression_verdict(&self, region: usize, target: TypeEnt, expr: Expression) -> Option<bool> {
        match expr {
            Expression::Integer(_) => Some(self.base_kind(target) is Integer),
            Expression::Name(n) => match *n {
                Name::Designator(d) => match self.scopes.spec_lookup(region as int, d) {
                    Some(EntitiesView::Single(id)) => if self.scopes.valid_id(id) {
                        match self.scopes.spec_entity(id).kind {
                            EntityKind::Object(t) => Some(t.base == target.base),
                            _ => Some(false),
                        }
                    } else {
                        Some(false)
                    },
                    Some(EntitiesView::Overloaded(_)) => None,
                    None => Some(false),
                },
                _ => None,
            },
            Expression::Other => None,
        }
    }

    fn base_kind_of(&self, t: TypeEnt) -> (r: &TypeKind)
        ensures
            *r == self.base_kind(t),
    {
        if t.base < self.types.len() {
            &self.types[t.base]
        } else {
            &TypeKind::Other
        }
    }

    /// Looks up `suffix` as a record element of type `typ`.
    pub fn lookup_type_selected(&self, prefix_pos: SrcPos, typ: TypeEnt, suffix: Symbol, suffix_pos: SrcPos) -> (r: Result<TypeEnt, Diagnostic>)
        ensures
            view_result(r) == self.spec_element_type(prefix_pos, typ, suffix, suffix_pos),
    {
        match self.base_kind_of(typ) {
            TypeKind::Record(elems) => {
                let mut i: usize = 0;
                while i < elems.len()
                    invariant
                        i <= elems@.len(),
                        self.base_kind(typ) == TypeKind::Record(*elems),
                        first_element_from(elems@, suffix, 0) == first_element_from(elems@, suffix, i as int),
                    decreases elems@.len() - i,
                {
                    if elems[i].designator == suffix {
                        return Ok(elems[i].typ);
                    }
                    i = i + 1;
                }
                Err(Diagnostic::error(suffix_pos, DiagnosticKind::NoSuchElement(suffix)))
            }
            _ => Err(Diagnostic::error(prefix_pos, DiagnosticKind::InvalidFormal)),
        }
    }

    /// The type of an element of an array of type `typ` indexed with
    /// `n_indexes` indexes.
    pub fn analyze_indexed_name(&self, name_pos: SrcPos, typ: TypeEnt, n_indexes: usize) -> (r: Result<TypeEnt, Diagnostic>)
        ensures
            view_result(r) == self.spec_indexed_type(name_pos, typ, n_indexes as nat),
    {
        match self.base_kind_of(typ) {
            TypeKind::Array { dims, elem } => {
                if *dims == n_indexes {
                    Ok(*elem)
                } else {
                    Err(Diagnostic::error(name_pos, DiagnosticKind::IndexMismatch))
                }
            }
            _ => Err(Diagnostic::error(name_pos, DiagnosticKind::IndexMismatch)),
        }
    }

    /// Checks `expr` at `pos` against the type `target`, and reports a
    /// mismatch where it is definitely not of that type.
    pub fn analyze_expression_with_target_type(
        &self,
        region: usize,
        target: TypeEnt,
        pos: SrcPos,
        expr: &Expression,
        diagnostics: &mut Vec<Diagnostic>,
    ) -> (r: Option<bool>)
        ensures
            r == self.spec_expression_verdict(region, target, *expr),
            final(diagnostics)@.len() == old(diagnostics)@.len() + if r == Some(false) { 1int } else { 0 },
            forall|i: int| 0 <= i < old(diagnostics)@.len() ==> final(diagnostics)@[i] == old(diagnostics)@[i],
            r == Some(false) ==> final(diagnostics)@.last()@ == plain_error(pos, DiagnosticKind::TypeMismatch(target)),
    {
        let r = self.expression_verdict(region, target, expr);
        if let Some(false) = r {
            diagnostics.push(Diagnostic::error(pos, DiagnosticKind::TypeMismatch(target)));
        }
        r
    }

    fn expression_verdict(&self, region: usize, target: TypeEnt, expr: &Expression) -> (r: Option<bool>)
        ensures
            r == self.spec_expression_verdict(region, target, *expr),
    {
        match expr {
            Expression::Integer(_) => Some(
                match self.base_kind_of(target) {
                    TypeKind::Integer => true,
                    _ => false,
                },
            ),
            Expression::Name(n) => match &**n {
                Name::Designator(d) => match self.scopes.lookup(region, *d) {
                    Some(NamedEntities::Single(id)) => {
                        if id.region < self.scopes.regions.len() && id.index
                            < self.scopes.regions[id.region].entities.len() {
                            match &self.scopes.entity(id).kind {
                                EntityKind::Object(t) => Some(t.base == target.base),
                                _ => Some(false),
                            }
                        } else {
                            Some(false)
                        }
                    },
                    Some(NamedEntities::Overloaded(_)) => None,
                    None => Some(false),
                },
                _ => None,
            },
            Expression::Other => None,
        }
    }
}

} // verus!
