//! What holds of association checking and formal resolution for all
//! inputs: complete lists are correct, missing formals are reported once
//! each (output ports excepted), conversions pick their function, and a
//! converted formal has no parts.
use vstd::prelude::*;
use crate::association::{
    accepting, decl_positions, extra_errors, missing_below, may_be_unconnected, no_association_error,
    no_association_errors, reportable_below, required, return_type_of, ResolvedFormal,
};
use crate::ast::{spec_conversion_argument, ActualPart, AssociationElement, Name, NamePos};
use crate::context::AnalyzeContext;
use crate::formal_region::FormalRegion;
use crate::types::{plain_error, DiagnosticKind, DiagnosticView, SrcPos, Symbol, TypeEnt};

verus! {

/// The positions reported as missing are exactly those below `n` of formals
/// that were not associated, have no default and may not stay unconnected,
/// each once, in increasing order.
pub proof fn lemma_reportable(fr: FormalRegion, assoc: Set<usize>, n: int)
    requires
        0 <= n <= fr.entities@.len(),
        n <= usize::MAX,
    ensures
        forall|i: usize|
            i < n ==> (#[trigger] reportable_below(fr, assoc, n).contains(i) <==> (required(fr, assoc, i as int)
                && !may_be_unconnected(fr, i as int))),
        forall|j: int, k: int|
            0 <= j < k < reportable_below(fr, assoc, n).len() ==> reportable_below(fr, assoc, n)[j]
                < reportable_below(fr, assoc, n)[k],
        forall|j: int| 0 <= j < reportable_below(fr, assoc, n).len() ==> reportable_below(fr, assoc, n)[j] < n,
        missing_below(fr, assoc, n).len() == 0 ==> reportable_below(fr, assoc, n).len() == 0,
    decreases n,
{
    if n > 0 {
        lemma_reportable(fr, assoc, n - 1);
        let prev = reportable_below(fr, assoc, n - 1);
        let cur = reportable_below(fr, assoc, n);
        let last = (n - 1) as usize;
        if required(fr, assoc, n - 1) && !may_be_unconnected(fr, n - 1) {
            assert(cur == prev.push(last));
            assert forall|y: usize| cur.contains(y) <==> (prev.contains(y) || y == last) by {
                if cur.contains(y) {
                    let j = choose|j: int| 0 <= j < cur.len() && cur[j] == y;
                    if j < prev.len() {
                        assert(prev[j] == y);
                    }
                }
                if prev.contains(y) {
                    let j = choose|j: int| 0 <= j < prev.len() && prev[j] == y;
                    assert(cur[j] == y);
                }
                if y == last {
                    assert(cur[cur.len() - 1] == y);
                }
            }
        } else {
            assert(cur == prev);
        }
        assert(!prev.contains(last)) by {
            if prev.contains(last) {
                let j = choose|j: int| 0 <= j < prev.len() && prev[j] == last;
                assert(prev[j] < n - 1);
            }
        }
        assert forall|i: usize| i < n implies (cur.contains(i) <==> (required(fr, assoc, i as int)
            && !may_be_unconnected(fr, i as int))) by {
            if i < n - 1 {
                assert(prev.contains(i) <==> (required(fr, assoc, i as int) && !may_be_unconnected(fr, i as int)));
            }
        }
    }
}

proof fn lemma_pass_ok_has_no_errors(ctx: AnalyzeContext, fr: FormalRegion, region: usize, elems: Seq<AssociationElement>, k: int)
    requires
        0 <= k <= elems.len(),
        ctx.spec_pass(fr, region, elems, k).verdict == Some(true),
    ensures
        ctx.spec_pass(fr, region, elems, k).diags.len() == 0,
    decreases k,
{
    if k > 0 {
        let prev = ctx.spec_pass(fr, region, elems, k - 1);
        if prev.verdict != Some(true) {
            assert(ctx.spec_pass(fr, region, elems, k).verdict != Some(true));
        }
        lemma_pass_ok_has_no_errors(ctx, fr, region, elems, k - 1);
    }
}

/// The error of a formal that does not resolve is never about a missing
/// association.
proof fn lemma_resolve_error_kind(ctx: AnalyzeContext, fr: FormalRegion, region: usize, pos: SrcPos, name: Name)
    ensures
        ctx.spec_resolve(fr, region, pos, name) matches Err(e) ==> !(e.kind is NoAssociation),
    decreases name,
{
    match name {
        Name::Selected(p, _) => lemma_resolve_error_kind(ctx, fr, region, p.pos, p.item),
        Name::Indexed(p, _) => lemma_resolve_error_kind(ctx, fr, region, p.pos, p.item),
        Name::Slice(p, _) => lemma_resolve_error_kind(ctx, fr, region, p.pos, p.item),
        Name::FunctionCall(f) => lemma_resolve_error_kind(ctx, fr, region, f.name.pos, f.name.item),
        _ => {},
    }
}

proof fn lemma_pass_errors_kind(ctx: AnalyzeContext, fr: FormalRegion, region: usize, elems: Seq<AssociationElement>, k: int)
    requires
        0 <= k <= elems.len(),
    ensures
        forall|j: int|
            0 <= j < ctx.spec_pass(fr, region, elems, k).diags.len() ==> !((#[trigger] ctx.spec_pass(
                fr,
                region,
                elems,
                k,
            ).diags[j]).kind is NoAssociation),
    decreases k,
{
    if k > 0 {
        lemma_pass_errors_kind(ctx, fr, region, elems, k - 1);
        if let Some(f) = elems[k - 1].formal {
            lemma_resolve_error_kind(ctx, fr, region, f.pos, f.item);
        }
    }
}

/// Whether an actual is accepted for a formal of type `t`: it is `open`,
/// or an expression that is definitely of the base type of `t`.
pub open spec fn accepted_actual(ctx: AnalyzeContext, region: usize, t: TypeEnt, a: ActualPart) -> bool {
    match a {
        ActualPart::Open => true,
        ActualPart::Expression(x) => ctx.spec_expression_verdict(region, t.spec_base_type(), x) == Some(true),
    }
}

proof fn lemma_positional_pass(ctx: AnalyzeContext, fr: FormalRegion, region: usize, elems: Seq<AssociationElement>, k: int)
    requires
        0 <= k <= elems.len() == fr.entities@.len(),
        forall|i: int|
            0 <= i < elems.len() ==> (#[trigger] elems[i]).formal is None && accepted_actual(
                ctx,
                region,
                fr.entities@[i].type_mark,
                elems[i].actual.item,
            ),
    ensures
        ctx.spec_pass(fr, region, elems, k).verdict == Some(true),
        ctx.spec_pass(fr, region, elems, k).associated == Set::new(|i: usize| i < k),
        ctx.spec_pass(fr, region, elems, k).extra.len() == 0,
        ctx.spec_pass(fr, region, elems, k).diags.len() == 0,
    decreases k,
{
    if k > 0 {
        lemma_positional_pass(ctx, fr, region, elems, k - 1);
        let e = elems[k - 1];
        assert(e.formal is None);
        assert(ctx.spec_pass(fr, region, elems, k).associated =~= Set::new(|i: usize| i < k));
    }
}

proof fn lemma_none_missing(fr: FormalRegion, assoc: Set<usize>, n: int)
    requires
        forall|i: usize| i < n ==> assoc.contains(i),
    ensures
        missing_below(fr, assoc, n).len() == 0,
    decreases n,
{
    if n > 0 {
        lemma_none_missing(fr, assoc, n - 1);
    }
}

impl AnalyzeContext {
    /// A list that gives every formal, by position and in order, an actual
    /// that is accepted for it is correct and draws no diagnostic.
    pub proof fn lemma_full_positional_list_is_correct(
        &self,
        error_pos: SrcPos,
        fr: FormalRegion,
        region: usize,
        elems: Seq<AssociationElement>,
    )
        requires
            elems.len() == fr.entities@.len(),
            forall|i: int|
                0 <= i < elems.len() ==> (#[trigger] elems[i]).formal is None && accepted_actual(
                    *self,
                    region,
                    fr.entities@[i].type_mark,
                    elems[i].actual.item,
                ),
        ensures
            self.spec_assoc_verdict(fr, region, elems) == Some(true),
            self.spec_assoc_diagnostics(error_pos, fr, region, elems) == Seq::<DiagnosticView>::empty(),
    {
        lemma_positional_pass(*self, fr, region, elems, elems.len() as int);
        let s = self.spec_pass(fr, region, elems, elems.len() as int);
        lemma_none_missing(fr, s.associated, fr.entities@.len() as int);
        assert(s.diags =~= Seq::<DiagnosticView>::empty());
    }

    /// Where every formal part resolved, every actual was accepted and no
    /// actual is extra, the list draws exactly one "no association"
    /// diagnostic for each formal that was left out, has no default and is
    /// not an output port, in the order of the formals, each at the list's
    /// position and pointing at the formal's declaration; the verdict is an
    /// error exactly when a formal without default was left out.
    pub proof fn lemma_missing_associations(
        &self,
        error_pos: SrcPos,
        fr: FormalRegion,
        region: usize,
        elems: Seq<AssociationElement>,
    )
        requires
            self.spec_pass(fr, region, elems, elems.len() as int).verdict == Some(true),
            self.spec_pass(fr, region, elems, elems.len() as int).extra.len() == 0,
            fr.entities@.len() <= usize::MAX,
        ensures
            ({
                let s = self.spec_pass(fr, region, elems, elems.len() as int);
                let n = fr.entities@.len() as int;
                let rep = reportable_below(fr, s.associated, n);
                &&& self.spec_assoc_diagnostics(error_pos, fr, region, elems) == rep.map_values(
                    |i: usize| no_association_error(error_pos, fr.typ, fr.entities@[i as int]),
                )
                &&& forall|i: usize|
                    i < n ==> (#[trigger] rep.contains(i) <==> (!s.associated.contains(i)
                        && !fr.entities@[i as int].has_default && !may_be_unconnected(fr, i as int)))
                &&& forall|j: int, k: int| 0 <= j < k < rep.len() ==> rep[j] < rep[k]
                &&& self.spec_assoc_verdict(fr, region, elems) == if missing_below(fr, s.associated, n).len() == 0 {
                    Some(true)
                } else {
                    Some(false)
                }
            }),
    {
        let s = self.spec_pass(fr, region, elems, elems.len() as int);
        let n = fr.entities@.len() as int;
        lemma_pass_ok_has_no_errors(*self, fr, region, elems, elems.len() as int);
        lemma_reportable(fr, s.associated, n);
        assert(s.diags =~= Seq::<DiagnosticView>::empty());
        assert(extra_errors(s.extra) =~= Seq::<DiagnosticView>::empty());
        if missing_below(fr, s.associated, n).len() == 0 {
            assert(no_association_errors(fr, s.associated, error_pos, n) =~= Seq::<DiagnosticView>::empty());
        } else {
            assert(s.diags + no_association_errors(fr, s.associated, error_pos, n) + extra_errors(s.extra)
                =~= no_association_errors(fr, s.associated, error_pos, n));
        }
    }

    /// Output ports may stay unconnected: every "no association" diagnostic
    /// is about a formal that was left out, has no default and is not an
    /// output port. Conversely, where nothing else is wrong with the list,
    /// every such formal (a generic, parameter or non-output port) draws one.
    pub proof fn lemma_unconnected_outputs_allowed(
        &self,
        error_pos: SrcPos,
        fr: FormalRegion,
        region: usize,
        elems: Seq<AssociationElement>,
    )
        requires
            fr.entities@.len() <= usize::MAX,
        ensures
            ({
                let s = self.spec_pass(fr, region, elems, elems.len() as int);
                let d = self.spec_assoc_diagnostics(error_pos, fr, region, elems);
                let n = fr.entities@.len() as int;
                &&& forall|j: int|
                    0 <= j < d.len() && (#[trigger] d[j]).kind is NoAssociation ==> exists|k: int|
                        0 <= k < n && required(fr, s.associated, k) && !may_be_unconnected(fr, k) && d[j]
                            == no_association_error(error_pos, fr.typ, fr.entities@[k])
                &&& s.verdict == Some(true) ==> forall|k: int|
                    0 <= k < n && required(fr, s.associated, k) && !may_be_unconnected(fr, k) ==> d.contains(
                        no_association_error(error_pos, fr.typ, fr.entities@[k]),
                    )
            }),
    {
        let s = self.spec_pass(fr, region, elems, elems.len() as int);
        let d = self.spec_assoc_diagnostics(error_pos, fr, region, elems);
        let n = fr.entities@.len() as int;
        let rep = reportable_below(fr, s.associated, n);
        let na = no_association_errors(fr, s.associated, error_pos, n);
        let ex = extra_errors(s.extra);
        lemma_reportable(fr, s.associated, n);
        lemma_pass_errors_kind(*self, fr, region, elems, elems.len() as int);
        let incomplete = missing_below(fr, s.associated, n).len() > 0 || s.extra.len() > 0;
        if incomplete && s.verdict == Some(true) {
            assert forall|j: int| 0 <= j < d.len() && (#[trigger] d[j]).kind is NoAssociation implies exists|k: int|
                0 <= k < n && required(fr, s.associated, k) && !may_be_unconnected(fr, k) && d[j]
                    == no_association_error(error_pos, fr.typ, fr.entities@[k]) by {
                if j < s.diags.len() {
                    assert(d[j] == s.diags[j]);
                } else if j < s.diags.len() + na.len() {
                    let m = j - s.diags.len();
                    assert(d[j] == na[m]);
                    let k = rep[m] as int;
                    assert(rep.contains(rep[m]));
                    assert(rep.contains(rep[m]) <==> (required(fr, s.associated, k) && !may_be_unconnected(fr, k)));
                    assert(0 <= k < n && required(fr, s.associated, k) && !may_be_unconnected(fr, k));
                } else {
                    assert(d[j] == ex[j - s.diags.len() - na.len()]);
                }
            }
            assert forall|k: int|
                0 <= k < n && required(fr, s.associated, k) && !may_be_unconnected(fr, k) implies d.contains(
                no_association_error(error_pos, fr.typ, fr.entities@[k]),
            ) by {
                assert(rep.contains(k as usize) <==> (required(fr, s.associated, k) && !may_be_unconnected(fr, k)));
                let m = choose|m: int| 0 <= m < rep.len() && rep[m] == k as usize;
                assert(d[s.diags.len() + m] == na[m]);
            }
        } else if s.verdict == Some(true) {
            assert forall|k: int|
                0 <= k < n && required(fr, s.associated, k) && !may_be_unconnected(fr, k) implies d.contains(
                no_association_error(error_pos, fr.typ, fr.entities@[k]),
            ) by {
                assert(rep.contains(k as usize) <==> (required(fr, s.associated, k) && !may_be_unconnected(fr, k)));
            }
        }
    }

    /// A conversion `f(x)` of the formal `x`, where `f` names functions
    /// only: with exactly one of them accepting the formal's type it
    /// resolves to a converted formal of that function's return type; with
    /// several it fails as ambiguous and points at each of them; with none
    /// it fails naming the formal's type.
    pub proof fn lemma_conversion_by_function(&self, fr: FormalRegion, region: usize, pos: SrcPos, name: Name, f: Symbol)
        requires
            name is FunctionCall,
            name->FunctionCall_0.name.item == Name::Designator(f),
            fr.spec_find(f) is None,
            spec_conversion_argument(name->FunctionCall_0.parameters@) is Some,
            fr.spec_find(spec_conversion_argument(name->FunctionCall_0.parameters@)->Some_0.item) is Some,
            self.scopes.spec_lookup(region as int, f) is Some,
            self.scopes.spec_lookup(region as int, f)->Some_0 is Overloaded,
        ensures
            ({
                let fc = name->FunctionCall_0;
                let x = spec_conversion_argument(fc.parameters@)->Some_0.item;
                let i = fr.spec_find(x)->Some_0;
                let ent = fr.entities@[i];
                let c = accepting(self.scopes, self.scopes.spec_lookup(region as int, f)->Some_0->Overloaded_0, ent.type_mark);
                let r = self.spec_resolve(fr, region, pos, name);
                &&& c.len() == 1 ==> r == Ok::<ResolvedFormal, DiagnosticView>(
                    ResolvedFormal::Converted(i as usize, ent, return_type_of(self.scopes, c[0])),
                )
                &&& c.len() > 1 ==> r == Err::<ResolvedFormal, DiagnosticView>(
                    DiagnosticView {
                        pos: fc.name.pos,
                        kind: DiagnosticKind::AmbiguousCall(f),
                        related: decl_positions(self.scopes, c),
                    },
                )
                &&& c.len() == 0 ==> r == Err::<ResolvedFormal, DiagnosticView>(
                    plain_error(fc.name.pos, DiagnosticKind::NoFunctionAccepting(f, ent.type_mark)),
                )
            }),
    {
    }

    /// A converted formal has no parts: a record element, an indexed
    /// element or a slice of it is never a formal, whether the indexing is
    /// written as such or like a call.
    pub proof fn lemma_converted_is_terminal(&self, fr: FormalRegion, region: usize, pos: SrcPos, name: Name)
        requires
            direct_prefix(name) is Some,
            self.spec_resolve(fr, region, direct_prefix(name)->Some_0.pos, direct_prefix(name)->Some_0.item) is Ok,
            self.spec_resolve(fr, region, direct_prefix(name)->Some_0.pos, direct_prefix(name)->Some_0.item)->Ok_0 is Converted,
        ensures
            self.spec_resolve(fr, region, pos, name) is Err,
            forall|t: TypeEnt| (#[trigger] self.spec_resolve(fr, region, direct_prefix(name)->Some_0.pos, direct_prefix(name)->Some_0.item)->Ok_0.spec_select(t)) is None,
    {
        let p = direct_prefix(name)->Some_0;
        lemma_converted_comes_from_call(*self, fr, region, p.pos, p.item);
    }
}

/// The name that a selected, indexed or sliced name, or a call, is applied to.
pub open spec fn direct_prefix(name: Name) -> Option<NamePos> {
    match name {
        Name::Selected(p, _) => Some(*p),
        Name::Indexed(p, _) => Some(*p),
        Name::Slice(p, _) => Some(*p),
        Name::FunctionCall(f) => Some(f.name),
        _ => None,
    }
}

proof fn lemma_converted_comes_from_call(ctx: AnalyzeContext, fr: FormalRegion, region: usize, pos: SrcPos, name: Name)
    ensures
        ctx.spec_resolve(fr, region, pos, name) matches Ok(ResolvedFormal::Converted(..)) ==> name is FunctionCall,
{
}

} // verus!
