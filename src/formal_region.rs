//! The formals of one interface list (generics, ports or parameters).
use vstd::prelude::*;
use crate::types::{plain_error, view_result, Diagnostic, DiagnosticKind, DiagnosticView, InterfaceListType, SrcPos, Symbol, TypeEnt};

verus! {

/// One entry of an interface list.
#[derive(Clone, Copy, Debug, PartialEq, Eq, Structural)]
pub struct InterfaceEnt {
    pub designator: Symbol,
    pub type_mark: TypeEnt,
    pub has_default: bool,
    /// A signal port of mode out: it may be left unconnected.
    pub output_signal: bool,
    pub decl_pos: Option<SrcPos>,
}

impl InterfaceEnt {
    pub fn type_mark(&self) -> (r: TypeEnt)
        ensures
            r == self.type_mark,
    {
        self.type_mark
    }

    pub fn has_default(&self) -> (r: bool)
        ensures
            r == self.has_default,
    {
        self.has_default
    }

    pub fn is_output_signal(&self) -> (r: bool)
        ensures
            r == self.output_signal,
    {
        self.output_signal
    }

    pub fn decl_pos(&self) -> (r: Option<SrcPos>)
        ensures
            r == self.decl_pos,
    {
        self.decl_pos
    }
}

/// The ordered formals of one interface list; a formal's position is its
/// index in `entities`.
#[derive(Clone, Debug)]
pub struct FormalRegion {
    pub typ: InterfaceListType,
    pub entities: Vec<InterfaceEnt>,
}

/// The position of the first formal named `d` at or after `i`.
pub open spec fn first_formal_from(ents: Seq<InterfaceEnt>, d: Symbol, i: int) -> Option<int>
    decreases ents.len() - i,
{
    if i < 0 || i >= ents.len() {
        None
    } else if ents[i].designator == d {
        Some(i)
    } else {
        first_formal_from(ents, d, i + 1)
    }
}

impl FormalRegion {
    pub open spec fn spec_find(&self, d: Symbol) -> Option<int> {
        first_formal_from(self.entities@, d, 0)
    }

    /// What `lookup` gives: the first formal named `d` with its position,
    /// or an invalid-formal error at `pos`.
    pub open spec fn spec_lookup(&self, pos: SrcPos, d: Symbol) -> Result<(usize, InterfaceEnt), DiagnosticView> {
        match self.spec_find(d) {
            Some(i) => Ok((i as usize, self.entities@[i])),
            None => Err(plain_error(pos, DiagnosticKind::InvalidFormal)),
        }
    }

    pub fn new(typ: InterfaceListType) -> (r: FormalRegion)
        ensures
            r.typ == typ,
            r.entities@ == Seq::<InterfaceEnt>::empty(),
    {
        FormalRegion { typ, entities: Vec::new() }
    }

    /// Appends a formal; its position is the number of formals before it.
    pub fn add(&mut self, ent: InterfaceEnt)
        ensures
            final(self).typ == old(self).typ,
            final(self).entities@ == old(self).entities@.push(ent),
    {
        self.entities.push(ent);
    }

    pub fn len(&self) -> (r: usize)
        ensures
            r == self.entities@.len(),
    {
        self.entities.len()
    }

    /// The formal at position `idx`, if there is one.
    pub fn nth(&self, idx: usize) -> (r: Option<InterfaceEnt>)
        ensures
            idx < self.entities@.len() ==> r == Some(self.entities@[idx as int]),
            idx >= self.entities@.len() ==> r.is_none(),
    {
        if idx < self.entities.len() {
            Some(self.entities[idx])
        } else {
            None
        }
    }

    /// The first formal named `designator` and its position.
    pub fn lookup(&self, pos: SrcPos, designator: Symbol) -> (r: Result<(usize, InterfaceEnt), Diagnostic>)
        ensures
            view_result(r) == self.spec_lookup(pos, designator),
    {
        let mut i: usize = 0;
        while i < self.entities.len()
            invariant
                i <= self.entities@.len(),
                first_formal_from(self.entities@, designator, 0)
                    == first_formal_from(self.entities@, designator, i as int),
            decreases self.entities@.len() - i,
        {
            if self.entities[i].designator == designator {
                return Ok((i, self.entities[i]));
            }
            i = i + 1;
        }
        Err(Diagnostic::error(pos, DiagnosticKind::InvalidFormal))
    }
}

} // verus!
