//! Declarative regions: a tree of scopes with name lookup, and the
//! uniqueness rules that reject homographs.
use vstd::prelude::*;
use crate::types::{Diagnostic, DiagnosticKind, DiagnosticView, EntityId, EntityKind, NamedEntity, SrcPos, Symbol};

verus! {

/// One declarative region.
#[derive(Debug)]
pub struct RegionData {
    /// The enclosing region for visibility.
    pub parent: Option<usize>,
    /// The region this one logically extends for uniqueness: an
    /// architecture extends its entity, a package body its package.
    pub extends: Option<usize>,
    /// The declarations, in order.
    pub entities: Vec<NamedEntity>,
}

/// All regions of an analysis; a region is named by its index, and links
/// only ever point to earlier regions.
#[derive(Debug)]
pub struct Scopes {
    pub regions: Vec<RegionData>,
}

/// The entities that a name in a region denotes.
#[derive(Clone, Debug, PartialEq, Eq)]
pub enum NamedEntities {
    Single(EntityId),
    Overloaded(Vec<EntityId>),
}

/// What a name denotes, as a mathematical value.
pub enum EntitiesView {
    Single(EntityId),
    Overloaded(Seq<EntityId>),
}

impl View for NamedEntities {
    type V = EntitiesView;

    open spec fn view(&self) -> EntitiesView {
        match self {
            NamedEntities::Single(id) => EntitiesView::Single(*id),
            NamedEntities::Overloaded(ids) => EntitiesView::Overloaded(ids@),
        }
    }
}

/// `e` may not be declared in a region that already holds `prior`.
pub open spec fn homograph(prior: NamedEntity, e: NamedEntity) -> bool {
    prior.designator == e.designator && !(prior.kind.spec_overloadable()
        && e.kind.spec_overloadable())
}

/// The index of the first entity at or after `i` that `e` is a homograph of.
pub open spec fn first_conflict_from(ents: Seq<NamedEntity>, e: NamedEntity, i: int) -> Option<int>
    decreases ents.len() - i,
{
    if i < 0 || i >= ents.len() {
        None
    } else if homograph(ents[i], e) {
        Some(i)
    } else {
        first_conflict_from(ents, e, i + 1)
    }
}

/// The index of the first entity at or after `i` named `d`.
pub open spec fn first_named_from(ents: Seq<NamedEntity>, d: Symbol, i: int) -> Option<int>
    decreases ents.len() - i,
{
    if i < 0 || i >= ents.len() {
        None
    } else if ents[i].designator == d {
        Some(i)
    } else {
        first_named_from(ents, d, i + 1)
    }
}

/// The indexes below `n` of the overloadable entities named `d`, in order.
pub open spec fn overloads_below(ents: Seq<NamedEntity>, d: Symbol, n: int) -> Seq<usize>
    decreases n,
{
    if n <= 0 {
        Seq::empty()
    } else {
        let rest = overloads_below(ents, d, n - 1);
        if ents[n - 1].designator == d && ents[n - 1].kind.spec_overloadable() {
            rest.push((n - 1) as usize)
        } else {
            rest
        }
    }
}

/// The diagnostic for declaring `e` at `pos` after `prior`.
pub open spec fn duplicate_error(e: NamedEntity, pos: SrcPos, prior: NamedEntity) -> DiagnosticView {
    DiagnosticView {
        pos,
        kind: DiagnosticKind::Duplicate(e.designator),
        related: match prior.decl_pos {
            Some(p) => seq![p],
            None => Seq::empty(),
        },
    }
}

impl Scopes {
    pub open spec fn wf(&self) -> bool {
        forall|r: int|
            0 <= r < self.regions@.len() ==> {
                &&& (#[trigger] self.regions@[r]).parent matches Some(p) ==> p < r
                &&& self.regions@[r].extends matches Some(x) ==> x < r
            }
    }

    pub open spec fn ents(&self, r: int) -> Seq<NamedEntity> {
        self.regions@[r].entities@
    }

    /// The earlier declaration, in region `r` or in a region that it
    /// extends, that `e` would be a homograph of: the first one in `r`
    /// itself, else the first one along the extension links.
    pub open spec fn conflict(&self, r: int, e: NamedEntity) -> Option<NamedEntity>
        decreases r,
    {
        if r < 0 || r >= self.regions@.len() {
            None
        } else {
            match first_conflict_from(self.ents(r), e, 0) {
                Some(i) => Some(self.ents(r)[i]),
                None => match self.regions@[r].extends {
                    Some(x) => if x < r {
                        self.conflict(x as int, e)
                    } else {
                        None
                    },
                    None => None,
                },
            }
        }
    }

    /// What a designator denotes from region `r`: the declarations of the
    /// nearest region along the parent links that declares it.
    pub open spec fn spec_lookup(&self, r: int, d: Symbol) -> Option<EntitiesView>
        decreases r,
    {
        if r < 0 || r >= self.regions@.len() {
            None
        } else {
            match first_named_from(self.ents(r), d, 0) {
                Some(i) => if self.ents(r)[i].kind.spec_overloadable() {
                    Some(
                        EntitiesView::Overloaded(
                            overloads_below(self.ents(r), d, self.ents(r).len() as int).map_values(
                                |j: usize| EntityId { region: r as usize, index: j },
                            ),
                        ),
                    )
                } else {
                    Some(EntitiesView::Single(EntityId { region: r as usize, index: i as usize }))
                },
                None => match self.regions@[r].parent {
                    Some(p) => if p < r {
                        self.spec_lookup(p as int, d)
                    } else {
                        None
                    },
                    None => None,
                },
            }
        }
    }

    pub open spec fn valid_id(&self, id: EntityId) -> bool {
        id.region < self.regions@.len() && id.index < self.ents(id.region as int).len()
    }

    pub open spec fn spec_entity(&self, id: EntityId) -> NamedEntity {
        self.ents(id.region as int)[id.index as int]
    }

    pub fn new() -> (r: Scopes)
        ensures
            r.wf(),
            r.regions@.len() == 0,
    {
        Scopes { regions: Vec::new() }
    }

    /// Opens a fresh region nested in `parent`, and gives its index.
    pub fn new_region(&mut self, parent: Option<usize>) -> (r: usize)
        requires
            old(self).wf(),
            parent matches Some(p) ==> p < old(self).regions@.len(),
        ensures
            final(self).wf(),
            r == old(self).regions@.len(),
            final(self).regions@.len() == r + 1,
            forall|i: int| 0 <= i < r ==> final(self).regions@[i] == old(self).regions@[i],
            final(self).regions@[r as int].parent == parent,
            final(self).regions@[r as int].extends.is_none(),
            final(self).ents(r as int).len() == 0,
    {
        let r = self.regions.len();
        self.regions.push(RegionData { parent, extends: None, entities: Vec::new() });
        r
    }

    /// Opens the region of a unit that continues `base` (an architecture
    /// of its entity, a package body of its package): names of `base` are
    /// visible in it, and may not be declared again in it.
    pub fn new_extended_region(&mut self, base: usize) -> (r: usize)
        requires
            old(self).wf(),
            base < old(self).regions@.len(),
        ensures
            final(self).wf(),
            r == old(self).regions@.len(),
            final(self).regions@.len() == r + 1,
            forall|i: int| 0 <= i < r ==> final(self).regions@[i] == old(self).regions@[i],
            final(self).regions@[r as int].parent == Some(base),
            final(self).regions@[r as int].extends == Some(base),
            final(self).ents(r as int).len() == 0,
    {
        let r = self.regions.len();
        self.regions.push(RegionData { parent: Some(base), extends: Some(base), entities: Vec::new() });
        r
    }

    pub fn entity(&self, id: EntityId) -> (r: &NamedEntity)
        requires
            self.valid_id(id),
        ensures
            *r == self.spec_entity(id),
    {
        &self.regions[id.region].entities[id.index]
    }

    /// The overloadable entities named `d` in one region.
    fn overloads(ents: &Vec<NamedEntity>, region: usize, d: Symbol) -> (r: Vec<EntityId>)
        ensures
            r@ == overloads_below(ents@, d, ents@.len() as int).map_values(
                |j: usize| EntityId { region, index: j },
            ),
    {
        let mut r: Vec<EntityId> = Vec::new();
        let mut i: usize = 0;
        while i < ents.len()
            invariant
                i <= ents@.len(),
                r@ == overloads_below(ents@, d, i as int).map_values(
                    |j: usize| EntityId { region, index: j },
                ),
            decreases ents@.len() - i,
        {
            if ents[i].designator == d && ents[i].kind.is_overloadable() {
                r.push(EntityId { region, index: i });
            }
            proof {
                let f = |j: usize| EntityId { region, index: j };
                assert(overloads_below(ents@, d, i + 1) == (if ents@[i as int].designator == d
                    && ents@[i as int].kind.spec_overloadable() {
                    overloads_below(ents@, d, i as int).push(i)
                } else {
                    overloads_below(ents@, d, i as int)
                }));
                assert(overloads_below(ents@, d, i as int).push(i).map_values(f)
                    =~= overloads_below(ents@, d, i as int).map_values(f).push(f(i)));
            }
            i = i + 1;
        }
        r
    }

    /// What `designator` denotes when looked up from `region`.
    pub fn lookup(&self, region: usize, designator: Symbol) -> (r: Option<NamedEntities>)
        ensures
            match r {
                Some(n) => self.spec_lookup(region as int, designator) == Some(n@),
                None => self.spec_lookup(region as int, designator) is None,
            },
    {
        if region >= self.regions.len() {
            return None;
        }
        let mut cur: usize = region;
        loop
            invariant
                cur < self.regions@.len(),
                self.spec_lookup(region as int, designator) == self.spec_lookup(cur as int, designator),
            decreases cur,
        {
            let ents = &self.regions[cur].entities;
            let mut i: usize = 0;
            while i < ents.len()
                invariant
                    i <= ents@.len(),
                    cur < self.regions@.len(),
                    ents@ == self.ents(cur as int),
                    self.spec_lookup(region as int, designator) == self.spec_lookup(cur as int, designator),
                    first_named_from(ents@, designator, 0) == first_named_from(ents@, designator, i as int),
                decreases ents@.len() - i,
            {
                if ents[i].designator == designator {
                    if ents[i].kind.is_overloadable() {
                        return Some(NamedEntities::Overloaded(Self::overloads(ents, cur, designator)));
                    } else {
                        return Some(NamedEntities::Single(EntityId { region: cur, index: i }));
                    }
                }
                i = i + 1;
            }
            match self.regions[cur].parent {
                Some(p) => {
                    if p < cur {
                        cur = p;
                    } else {
                        return None;
                    }
                }
                None => {
                    return None;
                }
            }
        }
    }

    /// The first homograph of `e` in the entities of one region.
    fn find_conflict(ents: &Vec<NamedEntity>, e: &NamedEntity) -> (r: Option<usize>)
        ensures
            r matches Some(i) ==> i < ents@.len() && first_conflict_from(ents@, *e, 0) == Some(i as int),
            r is None ==> first_conflict_from(ents@, *e, 0) is None,
    {
        let mut i: usize = 0;
        while i < ents.len()
            invariant
                i <= ents@.len(),
                first_conflict_from(ents@, *e, 0) == first_conflict_from(ents@, *e, i as int),
            decreases ents@.len() - i,
        {
            let p = &ents[i];
            if p.designator == e.designator && !(p.kind.is_overloadable() && e.kind.is_overloadable()) {
                return Some(i);
            }
            i = i + 1;
        }
        None
    }

    /// Declares `designator` as an entity of `kind` at `pos` in `region`.
    /// A homograph of an earlier declaration of the region, or of a region
    /// that it extends, is refused with a diagnostic at `pos` that points at
    /// that earlier declaration; the regions are then left as they were.
    pub fn declare(&mut self, region: usize, designator: Symbol, kind: EntityKind, pos: SrcPos) -> (r: Result<(), Diagnostic>)
        requires
            old(self).wf(),
            region < old(self).regions@.len(),
        ensures
            final(self).wf(),
            final(self).regions@.len() == old(self).regions@.len(),
            ({
                let e = NamedEntity { designator, kind, decl_pos: Some(pos) };
                match old(self).conflict(region as int, e) {
                    Some(prior) => {
                        &&& r matches Err(d) && d@ == duplicate_error(e, pos, prior)
                        &&& final(self).regions@ == old(self).regions@
                    },
                    None => {
                        &&& r is Ok
                        &&& forall|i: int| 0 <= i < old(self).regions@.len() && i != region
                            ==> final(self).regions@[i] == old(self).regions@[i]
                        &&& final(self).regions@[region as int].parent == old(self).regions@[region as int].parent
                        &&& final(self).regions@[region as int].extends == old(self).regions@[region as int].extends
                        &&& final(self).ents(region as int) == old(self).ents(region as int).push(e)
                    },
                }
            }),
    {
        let e = NamedEntity { designator, kind, decl_pos: Some(pos) };
        let mut cur: usize = region;
        loop
            invariant
                self.wf(),
                cur <= region < self.regions@.len(),
                self.regions@ == old(self).regions@,
                e == (NamedEntity { designator, kind, decl_pos: Some(pos) }),
                self.conflict(region as int, e) == self.conflict(cur as int, e),
            ensures
                self.conflict(region as int, e) is None,
            decreases cur,
        {
            match Self::find_conflict(&self.regions[cur].entities, &e) {
                Some(i) => {
                    let prior = &self.regions[cur].entities[i];
                    let mut related: Vec<SrcPos> = Vec::new();
                    if let Some(p) = prior.decl_pos {
                        related.push(p);
                    }
                    let d = Diagnostic { pos, kind: DiagnosticKind::Duplicate(designator), related };
                    proof {
                        assert(d.related@ =~= duplicate_error(e, pos, *prior).related);
                    }
                    return Err(d);
                }
                None => {
                    match self.regions[cur].extends {
                        Some(x) => {
                            cur = x;
                        }
                        None => {
                            break;
                        }
                    }
                }
            }
        }
        let ghost before = self.regions@;
        let mut data = self.regions.remove(region);
        data.entities.push(e);
        self.regions.insert(region, data);
        proof {
            assert forall|i: int| 0 <= i < before.len() && i != region implies self.regions@[i] == before[i] by {
            }
        }
        Ok(())
    }
}

proof fn lemma_first_conflict_found(ents: Seq<NamedEntity>, e: NamedEntity, i: int, j: int)
    requires
        0 <= i <= j < ents.len(),
        homograph(ents[j], e),
    ensures
        first_conflict_from(ents, e, i) matches Some(k) && i <= k <= j && homograph(ents[k], e),
    decreases j - i,
{
    if i < j && !homograph(ents[i], e) {
        lemma_first_conflict_found(ents, e, i + 1, j);
    }
}

proof fn lemma_first_conflict_push(ents: Seq<NamedEntity>, e1: NamedEntity, e: NamedEntity, i: int)
    requires
        0 <= i <= ents.len(),
        !homograph(e1, e),
    ensures
        first_conflict_from(ents.push(e1), e, i) == first_conflict_from(ents, e, i),
    decreases ents.len() - i,
{
    if i < ents.len() {
        assert(ents.push(e1)[i] == ents[i]);
        lemma_first_conflict_push(ents, e1, e, i + 1);
    } else {
        assert(ents.push(e1)[i] == e1);
        assert(first_conflict_from(ents.push(e1), e, i + 1) is None);
    }
}

proof fn lemma_first_conflict_range(ents: Seq<NamedEntity>, e: NamedEntity, i: int)
    ensures
        first_conflict_from(ents, e, i) matches Some(k) ==> i <= k < ents.len() && homograph(ents[k], e),
    decreases ents.len() - i,
{
    if 0 <= i < ents.len() && !homograph(ents[i], e) {
        lemma_first_conflict_range(ents, e, i + 1);
    }
}

proof fn lemma_conflict_depends_below(a: Scopes, b: Scopes, x: int, e: NamedEntity)
    requires
        0 <= x < a.regions@.len(),
        x < b.regions@.len(),
        forall|y: int| 0 <= y <= x ==> a.regions@[y] == b.regions@[y],
    ensures
        a.conflict(x, e) == b.conflict(x, e),
    decreases x,
{
    if let Some(p) = a.regions@[x].extends {
        if p < x {
            lemma_conflict_depends_below(a, b, p as int, e);
        }
    }
}

/// In one region, a declaration conflicts with every earlier one of the
/// same designator unless both are overloadable: a region that holds
/// `prior` refuses `e`.
pub proof fn lemma_homographs_conflict(scopes: Scopes, r: int, prior: NamedEntity, e: NamedEntity)
    requires
        0 <= r < scopes.regions@.len(),
        scopes.ents(r).contains(prior),
        prior.designator == e.designator,
        !(prior.kind.spec_overloadable() && e.kind.spec_overloadable()),
    ensures
        scopes.conflict(r, e) is Some,
{
    let j = choose|j: int| 0 <= j < scopes.ents(r).len() && scopes.ents(r)[j] == prior;
    lemma_first_conflict_found(scopes.ents(r), e, 0, j);
}

/// Overloadable declarations of one designator never conflict by name
/// alone: once an overloadable `e1` is declared in region `r`, another
/// overloadable `e2` meets the same conflicts as before.
pub proof fn lemma_overloads_coexist(before: Scopes, after: Scopes, r: int, e1: NamedEntity, e2: NamedEntity)
    requires
        0 <= r < before.regions@.len(),
        after.regions@.len() == before.regions@.len(),
        forall|i: int| 0 <= i < before.regions@.len() && i != r ==> after.regions@[i] == before.regions@[i],
        after.regions@[r].extends == before.regions@[r].extends,
        after.ents(r) == before.ents(r).push(e1),
        e1.kind.spec_overloadable(),
        e2.kind.spec_overloadable(),
    ensures
        after.conflict(r, e2) == before.conflict(r, e2),
{
    lemma_first_conflict_push(before.ents(r), e1, e2, 0);
    lemma_first_conflict_range(before.ents(r), e2, 0);
    if let Some(k) = first_conflict_from(before.ents(r), e2, 0) {
        assert(after.ents(r)[k] == before.ents(r)[k]);
    }
    if let Some(x) = before.regions@[r].extends {
        if x < r {
            lemma_conflict_depends_below(after, before, x as int, e2);
        }
    }
}

/// A region that extends another (an architecture its entity, a package
/// body its package) may not declare again what the other declares: where
/// nothing in the region itself conflicts, `e` conflicts with the first
/// homograph in the extended region, and the diagnostic points there.
pub proof fn lemma_extended_region_homograph(scopes: Scopes, a: int, prior: NamedEntity, e: NamedEntity, pos: SrcPos)
    requires
        0 <= a < scopes.regions@.len(),
        scopes.regions@[a].extends matches Some(x) && x < a && scopes.ents(x as int).contains(prior),
        first_conflict_from(scopes.ents(a), e, 0) is None,
        homograph(prior, e),
    ensures
        scopes.conflict(a, e) is Some,
        scopes.ents(scopes.regions@[a].extends->Some_0 as int).contains(scopes.conflict(a, e)->Some_0),
        duplicate_error(e, pos, scopes.conflict(a, e)->Some_0).related == match scopes.conflict(a, e)->Some_0.decl_pos {
            Some(p) => seq![p],
            None => Seq::<SrcPos>::empty(),
        },
{
    let x = scopes.regions@[a].extends->Some_0 as int;
    let ents = scopes.ents(x);
    let j = choose|j: int| 0 <= j < ents.len() && ents[j] == prior;
    lemma_first_conflict_found(ents, e, 0, j);
    let k = first_conflict_from(ents, e, 0)->Some_0;
    assert(scopes.conflict(x, e) == Some(ents[k]));
}

} // verus!
