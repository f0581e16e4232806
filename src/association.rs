//! Resolution of formals and checking of association lists.
use vstd::prelude::*;
use fnv::FnvHashSet;
use crate::ast::{
    all_positional, spec_all_positional, spec_conversion_argument, spec_prefix, to_formal_conversion_argument,
    ActualPart, ActualPos, AssociationElement, Name, NamePos,
};
use crate::context::AnalyzeContext;
use crate::formal_region::{FormalRegion, InterfaceEnt};
use crate::region::{EntitiesView, NamedEntities, Scopes};
use crate::types::{
    plain_error, view_result, Diagnostic, DiagnosticKind, DiagnosticView, EntityId, EntityKind, InterfaceListType,
    SrcPos, Symbol, TypeEnt,
};

verus! {

/// What a formal name resolved to. Each variant keeps the position of the
/// formal in its region and the formal itself.
#[derive(Clone, Copy, Debug, PartialEq, Eq, Structural)]
pub enum ResolvedFormal {
    /// The formal itself: `port map(foo => 0)`.
    Basic(usize, InterfaceEnt),
    /// A record element or array element or slice of the formal, with the
    /// type of that part: `port map(foo.field => 0)`, `port map(foo(0) => 0)`.
    Selected(usize, InterfaceEnt, TypeEnt),
    /// The formal passed through a conversion, with the type that the
    /// conversion returns: `port map(to_slv(foo) => sig)`.
    Converted(usize, InterfaceEnt, TypeEnt),
}

impl ResolvedFormal {
    pub open spec fn spec_type_mark(self) -> TypeEnt {
        match self {
            ResolvedFormal::Basic(_, ent) => ent.type_mark,
            ResolvedFormal::Selected(_, _, typ) => typ,
            ResolvedFormal::Converted(_, _, typ) => typ,
        }
    }

    pub open spec fn spec_idx(self) -> usize {
        match self {
            ResolvedFormal::Basic(idx, _) => idx,
            ResolvedFormal::Selected(idx, _, _) => idx,
            ResolvedFormal::Converted(idx, _, _) => idx,
        }
    }

    /// A part of the formal of type `suffix_type`; a converted formal has
    /// no parts.
    pub open spec fn spec_select(self, suffix_type: TypeEnt) -> Option<ResolvedFormal> {
        match self {
            ResolvedFormal::Basic(idx, ent) => Some(ResolvedFormal::Selected(idx, ent, suffix_type)),
            ResolvedFormal::Selected(idx, ent, _) => Some(ResolvedFormal::Selected(idx, ent, suffix_type)),
            ResolvedFormal::Converted(..) => None,
        }
    }

    /// The base type of the type that an actual must have.
    pub fn base_type(&self) -> (r: TypeEnt)
        ensures
            r == self.spec_type_mark().spec_base_type(),
    {
        self.type_mark().base_type()
    }

    /// The type that an actual must have.
    pub fn type_mark(&self) -> (r: TypeEnt)
        ensures
            r == self.spec_type_mark(),
    {
        match self {
            ResolvedFormal::Basic(_, ent) => ent.type_mark(),
            ResolvedFormal::Selected(_, _, typ) => *typ,
            ResolvedFormal::Converted(_, _, typ) => *typ,
        }
    }

    pub fn select(self, suffix_type: TypeEnt) -> (r: Option<ResolvedFormal>)
        ensures
            r == self.spec_select(suffix_type),
    {
        match self {
            ResolvedFormal::Basic(idx, ent) => Some(ResolvedFormal::Selected(idx, ent, suffix_type)),
            ResolvedFormal::Selected(idx, ent, _) => Some(ResolvedFormal::Selected(idx, ent, suffix_type)),
            ResolvedFormal::Converted(..) => None,
        }
    }

    /// The position of the formal in its region.
    pub fn idx(&self) -> (r: usize)
        ensures
            r == self.spec_idx(),
    {
        match self {
            ResolvedFormal::Basic(idx, _) => *idx,
            ResolvedFormal::Selected(idx, _, _) => *idx,
            ResolvedFormal::Converted(idx, _, _) => *idx,
        }
    }
}

/// What a name was found to denote, for cross-reference queries.
#[derive(Clone, Copy, Debug, PartialEq, Eq, Structural)]
pub enum Reference {
    /// The formal at this position of the formal region.
    Formal(usize),
    /// The element of this name of a record type.
    Element(TypeEnt, Symbol),
    /// A declared entity.
    Entity(EntityId),
}

/// One update of the cross-reference table: from now on the name at `pos`
/// refers to `target`, or to nothing.
#[derive(Clone, Copy, Debug, PartialEq, Eq, Structural)]
pub struct RefUpdate {
    pub pos: SrcPos,
    pub target: Option<Reference>,
}

pub open spec fn clear_ref(pos: SrcPos) -> RefUpdate {
    RefUpdate { pos, target: None }
}

pub open spec fn set_ref(pos: SrcPos, target: Reference) -> RefUpdate {
    RefUpdate { pos, target: Some(target) }
}

/// The entity `id` is a function that can be called with one argument of
/// type `typ`.
pub open spec fn accepts(scopes: Scopes, id: EntityId, typ: TypeEnt) -> bool {
    scopes.valid_id(id) && match scopes.spec_entity(id).kind {
        EntityKind::Subprogram(sig) => sig.return_type is Some && sig.spec_single_parameter(typ),
        _ => false,
    }
}

/// The return type of a function.
pub open spec fn return_type_of(scopes: Scopes, id: EntityId) -> TypeEnt {
    match scopes.spec_entity(id).kind {
        EntityKind::Subprogram(sig) => sig.return_type->Some_0,
        _ => TypeEnt { id: 0, base: 0 },
    }
}

/// Those of `ids` that accept a single argument of type `typ`, in order.
pub open spec fn accepting(scopes: Scopes, ids: Seq<EntityId>, typ: TypeEnt) -> Seq<EntityId>
    decreases ids.len(),
{
    if ids.len() == 0 {
        Seq::empty()
    } else {
        let rest = accepting(scopes, ids.drop_last(), typ);
        if accepts(scopes, ids.last(), typ) {
            rest.push(ids.last())
        } else {
            rest
        }
    }
}

/// The declaration positions of `ids`, for those that have one.
pub open spec fn decl_positions(scopes: Scopes, ids: Seq<EntityId>) -> Seq<SrcPos>
    decreases ids.len(),
{
    if ids.len() == 0 {
        Seq::empty()
    } else {
        let rest = decl_positions(scopes, ids.drop_last());
        if scopes.valid_id(ids.last()) && scopes.spec_entity(ids.last()).decl_pos is Some {
            rest.push(scopes.spec_entity(ids.last()).decl_pos->Some_0)
        } else {
            rest
        }
    }
}

/// The FNV hasher, carried opaquely inside an `FnvHashSet`.
#[verifier::external_type_specification]
#[verifier::external_body]
pub struct ExFnvHasher(fnv::FnvHasher);

/// std's hasher builder that an `FnvHashSet` is parameterised with.
#[verifier::external_type_specification]
#[verifier::external_body]
#[verifier::reject_recursive_types(H)]
pub struct ExBuildHasherDefault<H>(std::hash::BuildHasherDefault<H>);

/// Relies on `FnvHashSet::default` (std's `HashSet` with the FNV hasher):
/// a new set is empty.
#[verifier::external_body]
fn new_index_set() -> (s: FnvHashSet<usize>)
    ensures
        s@ == Set::<usize>::empty(),
{
    FnvHashSet::default()
}

/// Relies on `HashSet::insert` of an `FnvHashSet`: afterwards the set
/// also holds `idx`.
#[verifier::external_body]
fn insert_index(s: &mut FnvHashSet<usize>, idx: usize)
    ensures
        final(s)@ == old(s)@.insert(idx),
{
    s.insert(idx);
}

/// Relies on `HashSet::contains` of an `FnvHashSet`: whether the set
/// holds `idx`.
#[verifier::external_body]
fn contains_index(s: &FnvHashSet<usize>, idx: usize) -> (r: bool)
    ensures
        r == s@.contains(idx),
{
    s.contains(&idx)
}

/// Folds the verdict on one actual into the verdict so far: an error
/// dominates, and an unknown verdict wins over a definite success.
pub open spec fn fold_verdict(acc: Option<bool>, v: Option<bool>) -> Option<bool> {
    if v == Some(false) {
        Some(false)
    } else if v is None && acc == Some(true) {
        None
    } else {
        acc
    }
}

/// The state of a pass over an association list.
pub struct PassState {
    /// The verdict so far.
    pub verdict: Option<bool>,
    /// The positions of the formals that were associated.
    pub associated: Set<usize>,
    /// The positions of actuals that have no formal.
    pub extra: Seq<SrcPos>,
    /// The diagnostics of formals that did not resolve and of actuals of
    /// the wrong type.
    pub diags: Seq<DiagnosticView>,
}

/// The views of a list of diagnostics.
pub open spec fn diag_views(v: Seq<Diagnostic>) -> Seq<DiagnosticView> {
    v.map_values(|d: Diagnostic| d@)
}

/// The diagnostic for a formal left without association.
pub open spec fn no_association_error(error_pos: SrcPos, typ: InterfaceListType, ent: InterfaceEnt) -> DiagnosticView {
    DiagnosticView {
        pos: error_pos,
        kind: DiagnosticKind::NoAssociation(typ, ent.designator),
        related: match ent.decl_pos {
            Some(p) => seq![p],
            None => Seq::empty(),
        },
    }
}

/// The formal at `i` needs an association: it has no default.
pub open spec fn required(fr: FormalRegion, assoc: Set<usize>, i: int) -> bool {
    !assoc.contains(i as usize) && !fr.entities@[i].has_default
}

/// The positions below `n` of formals that were not associated and have
/// no default.
pub open spec fn missing_below(fr: FormalRegion, assoc: Set<usize>, n: int) -> Seq<usize>
    decreases n,
{
    if n <= 0 {
        Seq::empty()
    } else if required(fr, assoc, n - 1) {
        missing_below(fr, assoc, n - 1).push((n - 1) as usize)
    } else {
        missing_below(fr, assoc, n - 1)
    }
}

/// A formal that may stay unconnected: an output signal of a port list.
pub open spec fn may_be_unconnected(fr: FormalRegion, i: int) -> bool {
    fr.typ == InterfaceListType::Port && fr.entities@[i].output_signal
}

/// The positions below `n` of the formals that were not associated, have
/// no default and may not stay unconnected, in order.
pub open spec fn reportable_below(fr: FormalRegion, assoc: Set<usize>, n: int) -> Seq<usize>
    decreases n,
{
    if n <= 0 {
        Seq::empty()
    } else if required(fr, assoc, n - 1) && !may_be_unconnected(fr, n - 1) {
        reportable_below(fr, assoc, n - 1).push((n - 1) as usize)
    } else {
        reportable_below(fr, assoc, n - 1)
    }
}

/// One diagnostic for each of the formals below `n` that were not
/// associated, have no default and may not stay unconnected.
pub open spec fn no_association_errors(fr: FormalRegion, assoc: Set<usize>, error_pos: SrcPos, n: int) -> Seq<DiagnosticView> {
    reportable_below(fr, assoc, n).map_values(
        |i: usize| no_association_error(error_pos, fr.typ, fr.entities@[i as int]),
    )
}

/// The diagnostics for actuals without a formal.
pub open spec fn extra_errors(extra: Seq<SrcPos>) -> Seq<DiagnosticView> {
    extra.map_values(|p: SrcPos| plain_error(p, DiagnosticKind::UnexpectedExtraArgument))
}

proof fn lemma_diag_views_push(v: Seq<Diagnostic>, d: Diagnostic)
    ensures
        diag_views(v.push(d)) == diag_views(v).push(d@),
{
    assert(diag_views(v.push(d)) =~= diag_views(v).push(d@));
}

impl AnalyzeContext {
    /// Records the association of `rf` with `actual`.
    pub open spec fn spec_associate(&self, region: usize, s: PassState, rf: ResolvedFormal, actual: ActualPos) -> PassState {
        let target = rf.spec_type_mark().spec_base_type();
        PassState {
            verdict: match actual.item {
                ActualPart::Expression(x) => fold_verdict(
                    s.verdict,
                    self.spec_expression_verdict(region, rf.spec_type_mark().spec_base_type(), x),
                ),
                ActualPart::Open => s.verdict,
            },
            associated: s.associated.insert(rf.spec_idx()),
            extra: s.extra,
            diags: match actual.item {
                ActualPart::Expression(x) => if self.spec_expression_verdict(region, target, x) == Some(false) {
                    s.diags.push(plain_error(actual.pos, DiagnosticKind::TypeMismatch(target)))
                } else {
                    s.diags
                },
                ActualPart::Open => s.diags,
            },
        }
    }

    /// One element, the `idx`-th of its list.
    pub open spec fn spec_step(&self, fr: FormalRegion, region: usize, s: PassState, e: AssociationElement, idx: int) -> PassState {
        match e.formal {
            Some(f) => match self.spec_resolve(fr, region, f.pos, f.item) {
                Err(d) => PassState { verdict: Some(false), associated: s.associated, extra: s.extra, diags: s.diags.push(d) },
                Ok(rf) => self.spec_associate(region, s, rf, e.actual),
            },
            None => if 0 <= idx < fr.entities@.len() {
                self.spec_associate(region, s, ResolvedFormal::Basic(idx as usize, fr.entities@[idx]), e.actual)
            } else {
                PassState { verdict: s.verdict, associated: s.associated, extra: s.extra.push(e.actual.pos), diags: s.diags }
            },
        }
    }

    /// The state after the first `n` elements.
    pub open spec fn spec_pass(&self, fr: FormalRegion, region: usize, elems: Seq<AssociationElement>, n: int) -> PassState
        decreases n,
    {
        if n <= 0 {
            PassState { verdict: Some(true), associated: Set::empty(), extra: Seq::empty(), diags: Seq::empty() }
        } else {
            self.spec_step(fr, region, self.spec_pass(fr, region, elems, n - 1), elems[n - 1], n - 1)
        }
    }

    /// The cross-reference updates of the formal parts of the first `n`
    /// elements.
    pub open spec fn spec_pass_refs(&self, fr: FormalRegion, region: usize, elems: Seq<AssociationElement>, n: int) -> Seq<RefUpdate>
        decreases n,
    {
        if n <= 0 {
            Seq::empty()
        } else {
            self.spec_pass_refs(fr, region, elems, n - 1) + match elems[n - 1].formal {
                Some(f) => self.spec_references(fr, region, f.pos, f.item),
                None => Seq::empty(),
            }
        }
    }

    /// The verdict on an association list.
    pub open spec fn spec_assoc_verdict(&self, fr: FormalRegion, region: usize, elems: Seq<AssociationElement>) -> Option<bool> {
        let s = self.spec_pass(fr, region, elems, elems.len() as int);
        if missing_below(fr, s.associated, fr.entities@.len() as int).len() == 0 && s.extra.len() == 0 {
            s.verdict
        } else {
            Some(false)
        }
    }

    /// The diagnostics on an association list: those of formals that did
    /// not resolve and of actuals of the wrong type and, where nothing else
    /// was wrong, one for each missing association and one for each extra
    /// actual.
    pub open spec fn spec_assoc_diagnostics(&self, error_pos: SrcPos, fr: FormalRegion, region: usize, elems: Seq<AssociationElement>) -> Seq<DiagnosticView> {
        let s = self.spec_pass(fr, region, elems, elems.len() as int);
        let incomplete = missing_below(fr, s.associated, fr.entities@.len() as int).len() > 0 || s.extra.len() > 0;
        if incomplete && s.verdict == Some(true) {
            s.diags + no_association_errors(fr, s.associated, error_pos, fr.entities@.len() as int)
                + extra_errors(s.extra)
        } else {
            s.diags
        }
    }

    /// The type that the conversion `callee` turns a formal of type `typ`
    /// into, with the type or function that does it: a type names itself;
    /// an overloaded name must have exactly one function that accepts `typ`.
    pub open spec fn spec_conversion_type(&self, region: usize, pos: SrcPos, callee: NamePos, typ: TypeEnt) -> Result<(TypeEnt, EntityId), DiagnosticView> {
        match callee.item {
            Name::Designator(f) => match self.scopes.spec_lookup(region as int, f) {
                None => Err(plain_error(pos, DiagnosticKind::InvalidFormalConversion)),
                Some(EntitiesView::Single(id)) => if self.scopes.valid_id(id)
                    && self.scopes.spec_entity(id).kind is Type {
                    Ok((self.scopes.spec_entity(id).kind->Type_0, id))
                } else {
                    Err(plain_error(pos, DiagnosticKind::ExpectedFunction))
                },
                Some(EntitiesView::Overloaded(ids)) => {
                    let c = accepting(self.scopes, ids, typ);
                    if c.len() > 1 {
                        Err(
                            DiagnosticView {
                                pos: callee.pos,
                                kind: DiagnosticKind::AmbiguousCall(f),
                                related: decl_positions(self.scopes, c),
                            },
                        )
                    } else if c.len() == 1 {
                        Ok((return_type_of(self.scopes, c[0]), c[0]))
                    } else {
                        Err(plain_error(callee.pos, DiagnosticKind::NoFunctionAccepting(f, typ)))
                    }
                },
            },
            _ => Err(plain_error(pos, DiagnosticKind::InvalidFormalConversion)),
        }
    }

    /// The cross-reference updates of resolving the conversion `callee`:
    /// its designator is cleared, then set to the type or function found.
    pub open spec fn spec_callee_refs(&self, region: usize, pos: SrcPos, callee: NamePos, typ: TypeEnt) -> Seq<RefUpdate> {
        if callee.item is Designator {
            seq![clear_ref(callee.pos)] + match self.spec_conversion_type(region, pos, callee, typ) {
                Ok((_, id)) => seq![set_ref(callee.pos, Reference::Entity(id))],
                Err(_) => Seq::empty(),
            }
        } else {
            Seq::empty()
        }
    }

    /// The cross-reference updates of resolving the formal name `name` at
    /// `pos`: each designator that the resolution reaches is first cleared
    /// and then, where it resolves, set; a failed resolution leaves the
    /// names from the failure on cleared.
    pub open spec fn spec_references(&self, formal_region: FormalRegion, region: usize, pos: SrcPos, name: Name) -> Seq<RefUpdate>
        decreases name,
    {
        match name {
            Name::Designator(d) => seq![clear_ref(pos)] + match formal_region.spec_find(d) {
                Some(i) => seq![set_ref(pos, Reference::Formal(i as usize))],
                None => Seq::empty(),
            },
            Name::Selected(p, suffix) => seq![clear_ref(suffix.pos)] + self.spec_references(formal_region, region, p.pos, p.item)
                + match self.spec_resolve(formal_region, region, p.pos, p.item) {
                Ok(rp) => match self.spec_element_type(p.pos, rp.spec_type_mark(), suffix.item, suffix.pos) {
                    Ok(_) => seq![set_ref(suffix.pos, Reference::Element(rp.spec_type_mark().spec_base_type(), suffix.item))],
                    Err(_) => Seq::empty(),
                },
                Err(_) => Seq::empty(),
            },
            Name::Indexed(p, _) => self.spec_references(formal_region, region, p.pos, p.item),
            Name::Slice(p, _) => self.spec_references(formal_region, region, p.pos, p.item),
            Name::FunctionCall(f) => match spec_prefix(f.name.item) {
                None => Seq::empty(),
                Some(pd) => if formal_region.spec_find(pd) is None {
                    match spec_conversion_argument(f.parameters@) {
                        None => Seq::empty(),
                        Some(arg) => seq![clear_ref(arg.pos)] + match formal_region.spec_find(arg.item) {
                            Some(i) => seq![set_ref(arg.pos, Reference::Formal(i as usize))] + self.spec_callee_refs(
                                region,
                                pos,
                                f.name,
                                formal_region.entities@[i].type_mark,
                            ),
                            None => Seq::empty(),
                        },
                    }
                } else if spec_all_positional(f.parameters@) {
                    self.spec_references(formal_region, region, f.name.pos, f.name.item)
                } else {
                    Seq::empty()
                },
            },
            _ => Seq::empty(),
        }
    }

    /// An element of the formal `rp` indexed with `n` indexes.
    pub open spec fn spec_index(&self, rp: ResolvedFormal, pos: SrcPos, n: nat) -> Result<ResolvedFormal, DiagnosticView> {
        match self.spec_indexed_type(pos, rp.spec_type_mark(), n) {
            Err(e) => Err(e),
            Ok(t) => match rp.spec_select(t) {
                Some(r) => Ok(r),
                None => Err(plain_error(pos, DiagnosticKind::InvalidFormal)),
            },
        }
    }

    /// What the formal name `name` at `pos` resolves to in `formal_region`,
    /// with `region` the scope for other names.
    pub open spec fn spec_resolve(&self, formal_region: FormalRegion, region: usize, pos: SrcPos, name: Name) -> Result<ResolvedFormal, DiagnosticView>
        decreases name,
    {
        match name {
            Name::Designator(d) => match formal_region.spec_lookup(pos, d) {
                Ok((i, ent)) => Ok(ResolvedFormal::Basic(i, ent)),
                Err(e) => Err(e),
            },
            Name::Selected(p, suffix) => match self.spec_resolve(formal_region, region, p.pos, p.item) {
                Err(e) => Err(e),
                Ok(rp) => match self.spec_element_type(p.pos, rp.spec_type_mark(), suffix.item, suffix.pos) {
                    Err(e) => Err(e),
                    Ok(t) => match rp.spec_select(t) {
                        Some(r) => Ok(r),
                        None => Err(plain_error(pos, DiagnosticKind::InvalidFormal)),
                    },
                },
            },
            Name::Indexed(p, indexes) => match self.spec_resolve(formal_region, region, p.pos, p.item) {
                Err(e) => Err(e),
                Ok(rp) => self.spec_index(rp, pos, indexes@.len()),
            },
            Name::Slice(p, _) => match self.spec_resolve(formal_region, region, p.pos, p.item) {
                Err(e) => Err(e),
                Ok(rp) => if rp is Converted {
                    Err(plain_error(pos, DiagnosticKind::InvalidFormal))
                } else {
                    Ok(rp)
                },
            },
            Name::FunctionCall(f) => match spec_prefix(f.name.item) {
                None => Err(plain_error(pos, DiagnosticKind::InvalidFormal)),
                Some(pd) => if formal_region.spec_find(pd) is None {
                    match spec_conversion_argument(f.parameters@) {
                        None => Err(plain_error(pos, DiagnosticKind::InvalidFormalConversion)),
                        Some(arg) => match formal_region.spec_lookup(pos, arg.item) {
                            Err(e) => Err(e),
                            Ok((i, ent)) => match self.spec_conversion_type(region, pos, f.name, ent.type_mark) {
                                Err(e) => Err(e),
                                Ok((t, _)) => Ok(ResolvedFormal::Converted(i, ent, t)),
                            },
                        },
                    }
                } else if spec_all_positional(f.parameters@) {
                    match self.spec_resolve(formal_region, region, f.name.pos, f.name.item) {
                        Err(e) => Err(e),
                        Ok(rp) => self.spec_index(rp, pos, f.parameters@.len()),
                    }
                } else {
                    Err(plain_error(pos, DiagnosticKind::InvalidFormal))
                },
            },
            _ => Err(plain_error(pos, DiagnosticKind::InvalidFormal)),
        }
    }

    fn index_formal(&self, rp: ResolvedFormal, pos: SrcPos, n: usize) -> (r: Result<ResolvedFormal, Diagnostic>)
        ensures
            view_result(r) == self.spec_index(rp, pos, n as nat),
    {
        let t = self.analyze_indexed_name(pos, rp.type_mark(), n)?;
        match rp.select(t) {
            Some(r) => Ok(r),
            None => Err(Diagnostic::error(pos, DiagnosticKind::InvalidFormal)),
        }
    }

    /// The type that the conversion named `callee` returns for an argument
    /// of type `typ`.
    fn conversion_type(&self, region: usize, pos: SrcPos, callee: &NamePos, typ: TypeEnt) -> (r: Result<(TypeEnt, EntityId), Diagnostic>)
        ensures
            view_result(r) == self.spec_conversion_type(region, pos, *callee, typ),
    {
        let f = match &callee.item {
            Name::Designator(f) => *f,
            _ => {
                return Err(Diagnostic::error(pos, DiagnosticKind::InvalidFormalConversion));
            },
        };
        match self.scopes.lookup(region, f) {
            None => Err(Diagnostic::error(pos, DiagnosticKind::InvalidFormalConversion)),
            Some(NamedEntities::Single(id)) => {
                if id.region < self.scopes.regions.len() && id.index < self.scopes.regions[id.region].entities.len() {
                    match &self.scopes.entity(id).kind {
                        EntityKind::Type(t) => Ok((*t, id)),
                        _ => Err(Diagnostic::error(pos, DiagnosticKind::ExpectedFunction)),
                    }
                } else {
                    Err(Diagnostic::error(pos, DiagnosticKind::ExpectedFunction))
                }
            },
            Some(NamedEntities::Overloaded(ids)) => {
                let mut candidates: Vec<EntityId> = Vec::new();
                let mut i: usize = 0;
                while i < ids.len()
                    invariant
                        i <= ids@.len(),
                        candidates@ == accepting(self.scopes, ids@.take(i as int), typ),
                        forall|j: int| 0 <= j < candidates@.len() ==> accepts(self.scopes, #[trigger] candidates@[j], typ),
                    decreases ids@.len() - i,
                {
                    let id = ids[i];
                    proof {
                        assert(ids@.take(i + 1).drop_last() =~= ids@.take(i as int));
                    }
                    if id.region < self.scopes.regions.len() && id.index < self.scopes.regions[id.region].entities.len() {
                        match &self.scopes.entity(id).kind {
                            EntityKind::Subprogram(sig) => {
                                if sig.return_type.is_some() && sig.can_be_called_with_single_parameter(&typ) {
                                    candidates.push(id);
                                }
                            },
                            _ => {},
                        }
                    }
                    i = i + 1;
                }
                proof {
                    assert(ids@.take(ids@.len() as int) =~= ids@);
                }
                if candidates.len() > 1 {
                    let mut related: Vec<SrcPos> = Vec::new();
                    let mut k: usize = 0;
                    while k < candidates.len()
                        invariant
                            k <= candidates@.len(),
                            related@ == decl_positions(self.scopes, candidates@.take(k as int)),
                        decreases candidates@.len() - k,
                    {
                        let id = candidates[k];
                        proof {
                            assert(candidates@.take(k + 1).drop_last() =~= candidates@.take(k as int));
                        }
                        if id.region < self.scopes.regions.len() && id.index
                            < self.scopes.regions[id.region].entities.len() {
                            if let Some(p) = self.scopes.entity(id).decl_pos {
                                related.push(p);
                            }
                        }
                        k = k + 1;
                    }
                    proof {
                        assert(candidates@.take(candidates@.len() as int) =~= candidates@);
                    }
                    Err(Diagnostic { pos: callee.pos, kind: DiagnosticKind::AmbiguousCall(f), related })
                } else if candidates.len() == 1 {
                    let id = candidates[0];
                    match &self.scopes.entity(id).kind {
                        EntityKind::Subprogram(sig) => match sig.return_type {
                            Some(t) => Ok((t, id)),
                            None => Err(Diagnostic::error(callee.pos, DiagnosticKind::NoFunctionAccepting(f, typ))),
                        },
                        _ => Err(Diagnostic::error(callee.pos, DiagnosticKind::NoFunctionAccepting(f, typ))),
                    }
                } else {
                    Err(Diagnostic::error(callee.pos, DiagnosticKind::NoFunctionAccepting(f, typ)))
                }
            },
        }
    }

    /// Resolves the formal part `name` (at `name_pos`) of an association,
    /// and records in `references` what the names in it denote.
    pub fn resolve_formal(
        &self,
        formal_region: &FormalRegion,
        region: usize,
        name_pos: SrcPos,
        name: &Name,
        references: &mut Vec<RefUpdate>,
    ) -> (r: Result<ResolvedFormal, Diagnostic>)
        ensures
            view_result(r) == self.spec_resolve(*formal_region, region, name_pos, *name),
            final(references)@ == old(references)@ + self.spec_references(*formal_region, region, name_pos, *name),
        decreases name,
    {
        let ghost start = references@;
        let ghost refs = self.spec_references(*formal_region, region, name_pos, *name);
        match name {
            Name::Designator(d) => {
                references.push(RefUpdate { pos: name_pos, target: None });
                match formal_region.lookup(name_pos, *d) {
                    Ok((idx, ent)) => {
                        references.push(RefUpdate { pos: name_pos, target: Some(Reference::Formal(idx)) });
                        proof {
                            assert(references@ =~= start + refs);
                        }
                        Ok(ResolvedFormal::Basic(idx, ent))
                    },
                    Err(e) => {
                        proof {
                            assert(references@ =~= start + refs);
                        }
                        Err(e)
                    },
                }
            },
            Name::Selected(prefix, suffix) => {
                references.push(RefUpdate { pos: suffix.pos, target: None });
                let resolved = self.resolve_formal(formal_region, region, prefix.pos, &prefix.item, references);
                proof {
                    assert(references@ =~= start + (seq![clear_ref(suffix.pos)] + self.spec_references(
                        *formal_region,
                        region,
                        prefix.pos,
                        prefix.item,
                    )));
                }
                let resolved_prefix = match resolved {
                    Ok(rp) => rp,
                    Err(e) => {
                        proof {
                            assert(references@ =~= start + refs);
                        }
                        return Err(e);
                    },
                };
                match self.lookup_type_selected(prefix.pos, resolved_prefix.type_mark(), suffix.item, suffix.pos) {
                    Ok(t) => {
                        references.push(
                            RefUpdate {
                                pos: suffix.pos,
                                target: Some(Reference::Element(resolved_prefix.type_mark().base_type(), suffix.item)),
                            },
                        );
                        proof {
                            assert(references@ =~= start + refs);
                        }
                        match resolved_prefix.select(t) {
                            Some(r) => Ok(r),
                            None => Err(Diagnostic::error(name_pos, DiagnosticKind::InvalidFormal)),
                        }
                    },
                    Err(e) => {
                        proof {
                            assert(references@ =~= start + refs);
                        }
                        Err(e)
                    },
                }
            },
            Name::Indexed(prefix, indexes) => {
                let resolved_prefix = self.resolve_formal(formal_region, region, prefix.pos, &prefix.item, references)?;
                self.index_formal(resolved_prefix, name_pos, indexes.len())
            },
            Name::Slice(prefix, _) => {
                let resolved_prefix = self.resolve_formal(formal_region, region, prefix.pos, &prefix.item, references)?;
                if let ResolvedFormal::Converted(..) = resolved_prefix {
                    // A conversion result has no parts to slice.
                    return Err(Diagnostic::error(name_pos, DiagnosticKind::InvalidFormal));
                }
                Ok(resolved_prefix)
            },
            Name::FunctionCall(fcall) => {
                let prefix = match fcall.name.item.prefix() {
                    Some(p) => p,
                    None => {
                        proof {
                            assert(references@ =~= start + refs);
                        }
                        return Err(Diagnostic::error(name_pos, DiagnosticKind::InvalidFormal));
                    },
                };
                if formal_region.lookup(name_pos, prefix).is_err() {
                    // Not a formal: a conversion of the one argument.
                    let arg = match to_formal_conversion_argument(&fcall.parameters) {
                        Some(arg) => arg,
                        None => {
                            proof {
                                assert(references@ =~= start + refs);
                            }
                            return Err(Diagnostic::error(name_pos, DiagnosticKind::InvalidFormalConversion));
                        },
                    };
                    references.push(RefUpdate { pos: arg.pos, target: None });
                    let (idx, formal_ent) = match formal_region.lookup(name_pos, arg.item) {
                        Ok(found) => found,
                        Err(e) => {
                            proof {
                                assert(references@ =~= start + refs);
                            }
                            return Err(e);
                        },
                    };
                    references.push(RefUpdate { pos: arg.pos, target: Some(Reference::Formal(idx)) });
                    let callee_is_designator = match &fcall.name.item {
                        Name::Designator(_) => true,
                        _ => false,
                    };
                    if callee_is_designator {
                        references.push(RefUpdate { pos: fcall.name.pos, target: None });
                    }
                    match self.conversion_type(region, name_pos, &fcall.name, formal_ent.type_mark()) {
                        Ok((typ, id)) => {
                            if callee_is_designator {
                                references.push(RefUpdate { pos: fcall.name.pos, target: Some(Reference::Entity(id)) });
                            }
                            proof {
                                assert(references@ =~= start + refs);
                            }
                            Ok(ResolvedFormal::Converted(idx, formal_ent, typ))
                        },
                        Err(e) => {
                            proof {
                                assert(references@ =~= start + refs);
                            }
                            Err(e)
                        },
                    }
                } else if all_positional(&fcall.parameters) {
                    // Indexing of a formal, written like a call.
                    let resolved_prefix = self.resolve_formal(
                        formal_region,
                        region,
                        fcall.name.pos,
                        &fcall.name.item,
                        references,
                    )?;
                    self.index_formal(resolved_prefix, name_pos, fcall.parameters.len())
                } else {
                    proof {
                        assert(references@ =~= start + refs);
                    }
                    Err(Diagnostic::error(name_pos, DiagnosticKind::InvalidFormal))
                }
            },
            Name::SelectedAll(_) | Name::Attribute(..) | Name::External => {
                proof {
                    assert(references@ =~= start + refs);
                }
                Err(Diagnostic::error(name_pos, DiagnosticKind::InvalidFormal))
            },
        }
    }

    /// Checks an association list (port map, generic map or call) against
    /// the formals of `formal_region`, with `error_pos` the position of the
    /// instance or call. Returns `Some(true)` when the list is correct,
    /// `Some(false)` when it is not, and `None` when an actual could not be
    /// judged here. Diagnostics are appended to `diagnostics`, and what the
    /// formal names denote to `references`.
    pub fn analyze_assoc_elems_with_formal_region(
        &self,
        error_pos: SrcPos,
        formal_region: &FormalRegion,
        region: usize,
        elems: &[AssociationElement],
        diagnostics: &mut Vec<Diagnostic>,
        references: &mut Vec<RefUpdate>,
    ) -> (r: Option<bool>)
        ensures
            final(references)@ == old(references)@ + self.spec_pass_refs(*formal_region, region, elems@, elems@.len() as int),
            r == self.spec_assoc_verdict(*formal_region, region, elems@),
            diag_views(final(diagnostics)@) == diag_views(old(diagnostics)@) + self.spec_assoc_diagnostics(
                error_pos,
                *formal_region,
                region,
                elems@,
            ),
    {
        let ghost fr = *formal_region;
        let mut is_correct: Option<bool> = Some(true);
        let mut associated_indexes = new_index_set();
        let mut extra_associations: Vec<SrcPos> = Vec::new();
        let mut idx: usize = 0;
        while idx < elems.len()
            invariant
                idx <= elems@.len(),
                fr == *formal_region,
                ({
                    let s = self.spec_pass(fr, region, elems@, idx as int);
                    &&& is_correct == s.verdict
                    &&& associated_indexes@ == s.associated
                    &&& extra_associations@ == s.extra
                    &&& diag_views(diagnostics@) == diag_views(old(diagnostics)@) + s.diags
                }),
                references@ == old(references)@ + self.spec_pass_refs(fr, region, elems@, idx as int),
            decreases elems@.len() - idx,
        {
            let elem = &elems[idx];
            let ghost before = diagnostics@;
            let formal_ent: Option<ResolvedFormal> = match &elem.formal {
                Some(formal) => match self.resolve_formal(formal_region, region, formal.pos, &formal.item, references) {
                    Err(err) => {
                        diagnostics.push(err);
                        proof {
                            lemma_diag_views_push(before, err);
                        }
                        is_correct = Some(false);
                        None
                    },
                    Ok(f) => Some(f),
                },
                None => match formal_region.nth(idx) {
                    Some(f) => Some(ResolvedFormal::Basic(idx, f)),
                    None => {
                        extra_associations.push(elem.actual.pos);
                        None
                    },
                },
            };
            proof {
                assert(references@ =~= old(references)@ + self.spec_pass_refs(fr, region, elems@, idx + 1));
            }
            if let Some(fe) = formal_ent {
                insert_index(&mut associated_indexes, fe.idx());
                match &elem.actual.item {
                    ActualPart::Expression(expr) => {
                        let ghost prev = diagnostics@;
                        let actual_is_correct = self.analyze_expression_with_target_type(
                            region,
                            fe.base_type(),
                            elem.actual.pos,
                            expr,
                            diagnostics,
                        );
                        proof {
                            if actual_is_correct == Some(false) {
                                assert(diagnostics@ =~= prev.push(diagnostics@.last()));
                                lemma_diag_views_push(prev, diagnostics@.last());
                            } else {
                                assert(diagnostics@ =~= prev);
                            }
                        }
                        match actual_is_correct {
                            Some(false) => {
                                is_correct = Some(false);
                            },
                            None => {
                                if let Some(true) = is_correct {
                                    is_correct = None;
                                }
                            },
                            Some(true) => {},
                        }
                    },
                    ActualPart::Open => {},
                }
            }
idx = idx + 1;
        }
        let ghost s = self.spec_pass(fr, region, elems@, elems@.len() as int);
        let n = formal_region.len();
        let mut n_missing: usize = 0;
        let mut i: usize = 0;
        while i < n
            invariant
                i <= n == fr.entities@.len(),
                fr == *formal_region,
                associated_indexes@ == s.associated,
                n_missing <= i,
                n_missing == missing_below(fr, s.associated, i as int).len(),
            decreases n - i,
        {
            if !contains_index(&associated_indexes, i) && !formal_region.entities[i].has_default() {
                n_missing = n_missing + 1;
            }
            i = i + 1;
        }
        if n_missing == 0 && extra_associations.len() == 0 {
            return is_correct;
        }
        if let Some(true) = is_correct {
            // Only complain when nothing else is wrong.
            let ghost base = diagnostics@;
            let mut i: usize = 0;
            while i < n
                invariant
                    i <= n == fr.entities@.len(),
                    fr == *formal_region,
                    associated_indexes@ == s.associated,
                    diag_views(diagnostics@) == diag_views(base) + no_association_errors(fr, s.associated, error_pos, i as int),
                decreases n - i,
            {
                let formal = formal_region.entities[i];
                if !contains_index(&associated_indexes, i) && !formal.has_default() {
                    let unconnected = match formal_region.typ {
                        InterfaceListType::Port => formal.is_output_signal(),
                        _ => false,
                    };
                    if !unconnected {
                        let mut related: Vec<SrcPos> = Vec::new();
                        if let Some(p) = formal.decl_pos() {
                            related.push(p);
                        }
                        let d = Diagnostic {
                            pos: error_pos,
                            kind: DiagnosticKind::NoAssociation(formal_region.typ, formal.designator),
                            related,
                        };
                        let ghost prev = diagnostics@;
                        diagnostics.push(d);
                        proof {
                            assert(d@.related =~= no_association_error(error_pos, fr.typ, fr.entities@[i as int]).related);
                            lemma_diag_views_push(prev, d);
                            assert(no_association_errors(fr, s.associated, error_pos, i + 1) =~= no_association_errors(
                                fr, s.associated, error_pos, i as int).push(d@));
                            assert(diag_views(base) + no_association_errors(fr, s.associated, error_pos, i as int).push(d@)
                                =~= (diag_views(base) + no_association_errors(fr, s.associated, error_pos, i as int)).push(d@));
                        }
                    }
                }
                i = i + 1;
            }
            let ghost base2 = diagnostics@;
            let mut k: usize = 0;
            while k < extra_associations.len()
                invariant
                    k <= extra_associations@.len(),
                    diag_views(diagnostics@) == diag_views(base2) + extra_errors(extra_associations@.take(k as int)),
                decreases extra_associations@.len() - k,
            {
                let d = Diagnostic::error(extra_associations[k], DiagnosticKind::UnexpectedExtraArgument);
                let ghost prev = diagnostics@;
                diagnostics.push(d);
                proof {
                    lemma_diag_views_push(prev, d);
                    assert(extra_errors(extra_associations@.take(k + 1)) =~= extra_errors(
                        extra_associations@.take(k as int),
                    ).push(d@));
                    assert(diag_views(base2) + extra_errors(extra_associations@.take(k as int)).push(d@)
                        =~= (diag_views(base2) + extra_errors(extra_associations@.take(k as int))).push(d@));
                }
                k = k + 1;
            }
            proof {
                assert(extra_associations@.take(extra_associations@.len() as int) =~= extra_associations@);
                assert(diag_views(old(diagnostics)@) + s.diags + no_association_errors(fr, s.associated, error_pos, n as int)
                    + extra_errors(s.extra) =~= diag_views(old(diagnostics)@) + (s.diags + no_association_errors(
                    fr, s.associated, error_pos, n as int) + extra_errors(s.extra)));
            }
        }
        Some(false)
    }
}

} // verus!
