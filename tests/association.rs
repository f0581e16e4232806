use vhdl_assoc::association::{RefUpdate, Reference, ResolvedFormal};
use vhdl_assoc::ast::{
    ActualPart, ActualPos, AssociationElement, CallOrIndexed, DiscreteRange, ExprPos, Expression, Name, NamePos,
    WithPos,
};
use vhdl_assoc::context::AnalyzeContext;
use vhdl_assoc::formal_region::{FormalRegion, InterfaceEnt};
use vhdl_assoc::region::{NamedEntities, Scopes};
use vhdl_assoc::types::{
    Diagnostic, DiagnosticKind, ElementDecl, EntityId, EntityKind, InterfaceListType, Param, Signature, SrcPos,
    Symbol, TypeEnt, TypeKind,
};

const NATURAL: TypeEnt = TypeEnt { id: 0, base: 0 };
const BOOLEAN: TypeEnt = TypeEnt { id: 1, base: 1 };
const REC: TypeEnt = TypeEnt { id: 2, base: 2 };
const ARR: TypeEnt = TypeEnt { id: 3, base: 3 };
const SLV: TypeEnt = TypeEnt { id: 4, base: 4 };
const SMALL: TypeEnt = TypeEnt { id: 5, base: 0 };

const A: Symbol = Symbol { id: 1 };
const B: Symbol = Symbol { id: 2 };
const C: Symbol = Symbol { id: 3 };
const F: Symbol = Symbol { id: 4 };
const CONV: Symbol = Symbol { id: 5 };
const T: Symbol = Symbol { id: 6 };
const K: Symbol = Symbol { id: 7 };
const FLAG: Symbol = Symbol { id: 8 };
const G: Symbol = Symbol { id: 9 };

fn pos(start: usize) -> SrcPos {
    SrcPos { source: 0, start, end: start + 1 }
}

/// natural, boolean, a record with element `f`, a one-dimensional array
/// of natural, an opaque vector type, and a subtype of natural.
fn context() -> (AnalyzeContext, usize) {
    let types = vec![
        TypeKind::Integer,
        TypeKind::Enumeration,
        TypeKind::Record(vec![ElementDecl { designator: F, typ: NATURAL }]),
        TypeKind::Array { dims: 1, elem: NATURAL },
        TypeKind::Other,
        TypeKind::Integer,
    ];
    let mut scopes = Scopes::new();
    let region = scopes.new_region(None);
    (AnalyzeContext { types, scopes }, region)
}

fn declare(ctx: &mut AnalyzeContext, region: usize, d: Symbol, kind: EntityKind, at: usize) {
    ctx.scopes.declare(region, d, kind, pos(at)).unwrap();
}

fn function(param: TypeEnt, ret: TypeEnt) -> EntityKind {
    EntityKind::Subprogram(Signature { params: vec![Param { typ: param, has_default: false }], return_type: Some(ret) })
}

fn formal(d: Symbol, typ: TypeEnt, output_signal: bool, has_default: bool, at: usize) -> InterfaceEnt {
    InterfaceEnt { designator: d, type_mark: typ, has_default, output_signal, decl_pos: Some(pos(at)) }
}

/// Ports `(a: in natural; b: out natural)`.
fn ports_a_in_b_out() -> FormalRegion {
    let mut fr = FormalRegion::new(InterfaceListType::Port);
    fr.add(formal(A, NATURAL, false, false, 100));
    fr.add(formal(B, NATURAL, true, false, 101));
    fr
}

fn name_at(item: Name, at: usize) -> NamePos {
    NamePos { item, pos: pos(at) }
}

fn designator(d: Symbol, at: usize) -> NamePos {
    name_at(Name::Designator(d), at)
}

fn integer(value: u64, at: usize) -> ActualPos {
    ActualPos { item: ActualPart::Expression(Expression::Integer(value)), pos: pos(at) }
}

fn named(d: Symbol, at: usize, actual: ActualPos) -> AssociationElement {
    AssociationElement { formal: Some(designator(d, at)), actual }
}

fn positional(actual: ActualPos) -> AssociationElement {
    AssociationElement { formal: None, actual }
}

fn name_actual(d: Symbol, at: usize) -> ActualPos {
    ActualPos { item: ActualPart::Expression(Expression::Name(Box::new(Name::Designator(d)))), pos: pos(at) }
}

/// `callee(arg)` with `arg` a bare designator.
fn call(callee: NamePos, arg: Symbol, at: usize) -> Name {
    Name::FunctionCall(Box::new(CallOrIndexed { name: callee, parameters: vec![positional(name_actual(arg, at))] }))
}

fn check(ctx: &AnalyzeContext, region: usize, fr: &FormalRegion, elems: &[AssociationElement]) -> (Option<bool>, Vec<Diagnostic>) {
    let mut diagnostics = Vec::new();
    let verdict = ctx.analyze_assoc_elems_with_formal_region(pos(0), fr, region, elems, &mut diagnostics, &mut Vec::new());
    (verdict, diagnostics)
}

/// Port `(a: in natural)`.
fn port_a_in() -> FormalRegion {
    let mut fr = FormalRegion::new(InterfaceListType::Port);
    fr.add(formal(A, NATURAL, false, false, 100));
    fr
}

#[test]
fn unconnected_output_port_draws_no_diagnostic() {
    let (ctx, region) = context();
    let fr = ports_a_in_b_out();
    let (verdict, diagnostics) = check(&ctx, region, &fr, &[named(A, 10, integer(1, 11))]);
    // No diagnostic, but the list leaves a formal without default unassociated.
    assert_eq!(verdict, Some(false));
    assert!(diagnostics.is_empty());
}

#[test]
fn named_formal_outside_region_is_invalid() {
    let (ctx, region) = context();
    let fr = ports_a_in_b_out();
    let elems = [named(A, 10, integer(1, 11)), named(C, 12, integer(2, 13))];
    let (verdict, diagnostics) = check(&ctx, region, &fr, &elems);
    assert_eq!(verdict, Some(false));
    assert_eq!(diagnostics, vec![Diagnostic { pos: pos(12), kind: DiagnosticKind::InvalidFormal, related: vec![] }]);
}

#[test]
fn extra_positional_actual_is_reported() {
    let (ctx, region) = context();
    let fr = ports_a_in_b_out();
    let elems = [positional(integer(1, 10)), positional(integer(2, 11)), positional(integer(3, 12))];
    let (verdict, diagnostics) = check(&ctx, region, &fr, &elems);
    assert_eq!(verdict, Some(false));
    assert_eq!(
        diagnostics,
        vec![Diagnostic { pos: pos(12), kind: DiagnosticKind::UnexpectedExtraArgument, related: vec![] }]
    );
}

#[test]
fn full_positional_list_is_correct() {
    let (ctx, region) = context();
    let fr = ports_a_in_b_out();
    let elems = [positional(integer(1, 10)), positional(integer(2, 11))];
    let (verdict, diagnostics) = check(&ctx, region, &fr, &elems);
    assert_eq!(verdict, Some(true));
    assert!(diagnostics.is_empty());
}

#[test]
fn missing_generics_are_reported_with_declaration() {
    let (ctx, region) = context();
    let mut fr = FormalRegion::new(InterfaceListType::Generic);
    fr.add(formal(A, NATURAL, false, false, 100));
    fr.add(formal(B, NATURAL, false, true, 101));
    fr.add(formal(C, NATURAL, false, false, 102));
    let (verdict, diagnostics) = check(&ctx, region, &fr, &[]);
    assert_eq!(verdict, Some(false));
    assert_eq!(
        diagnostics,
        vec![
            Diagnostic { pos: pos(0), kind: DiagnosticKind::NoAssociation(InterfaceListType::Generic, A), related: vec![pos(100)] },
            Diagnostic { pos: pos(0), kind: DiagnosticKind::NoAssociation(InterfaceListType::Generic, C), related: vec![pos(102)] },
        ]
    );
}

#[test]
fn missing_input_port_is_reported_but_not_output() {
    let (ctx, region) = context();
    let fr = ports_a_in_b_out();
    let (verdict, diagnostics) = check(&ctx, region, &fr, &[]);
    assert_eq!(verdict, Some(false));
    assert_eq!(
        diagnostics,
        vec![Diagnostic { pos: pos(0), kind: DiagnosticKind::NoAssociation(InterfaceListType::Port, A), related: vec![pos(100)] }]
    );
}

#[test]
fn output_signal_outside_port_list_is_required() {
    let (ctx, region) = context();
    let mut fr = FormalRegion::new(InterfaceListType::Parameter);
    fr.add(formal(A, NATURAL, true, false, 100));
    let (verdict, diagnostics) = check(&ctx, region, &fr, &[]);
    assert_eq!(verdict, Some(false));
    assert_eq!(diagnostics.len(), 1);
    assert_eq!(diagnostics[0].kind, DiagnosticKind::NoAssociation(InterfaceListType::Parameter, A));
}

#[test]
fn missing_association_is_quiet_after_other_errors() {
    let (ctx, region) = context();
    let mut fr = FormalRegion::new(InterfaceListType::Generic);
    fr.add(formal(A, NATURAL, false, false, 100));
    fr.add(formal(B, NATURAL, false, false, 101));
    let (verdict, diagnostics) = check(&ctx, region, &fr, &[named(C, 10, integer(1, 11))]);
    assert_eq!(verdict, Some(false));
    assert_eq!(diagnostics, vec![Diagnostic { pos: pos(10), kind: DiagnosticKind::InvalidFormal, related: vec![] }]);
}

#[test]
fn actual_of_wrong_type_is_an_error() {
    let (mut ctx, region) = context();
    declare(&mut ctx, region, FLAG, EntityKind::Object(BOOLEAN), 50);
    let fr = ports_a_in_b_out();
    let (verdict, diagnostics) = check(&ctx, region, &fr, &[named(A, 10, name_actual(FLAG, 11))]);
    assert_eq!(verdict, Some(false));
    assert_eq!(
        diagnostics,
        vec![Diagnostic { pos: pos(11), kind: DiagnosticKind::TypeMismatch(NATURAL), related: vec![] }]
    );
}

#[test]
fn actual_of_subtype_matches_base_type() {
    let (mut ctx, region) = context();
    declare(&mut ctx, region, K, EntityKind::Object(SMALL), 50);
    let fr = port_a_in();
    let (verdict, _) = check(&ctx, region, &fr, &[named(A, 10, name_actual(K, 11))]);
    assert_eq!(verdict, Some(true));
}

#[test]
fn unknown_actual_gives_unknown_verdict() {
    let (ctx, region) = context();
    let fr = port_a_in();
    let other = ActualPos { item: ActualPart::Expression(Expression::Other), pos: pos(11) };
    let (verdict, diagnostics) = check(&ctx, region, &fr, &[named(A, 10, other)]);
    assert_eq!(verdict, None);
    assert!(diagnostics.is_empty());
}

#[test]
fn error_dominates_unknown() {
    let (ctx, region) = context();
    let mut fr = FormalRegion::new(InterfaceListType::Generic);
    fr.add(formal(A, NATURAL, false, false, 100));
    fr.add(formal(B, BOOLEAN, false, false, 101));
    let other = ActualPos { item: ActualPart::Expression(Expression::Other), pos: pos(11) };
    let (verdict, diagnostics) = check(&ctx, region, &fr, &[named(A, 10, other), named(B, 12, integer(1, 13))]);
    assert_eq!(verdict, Some(false));
    assert_eq!(
        diagnostics,
        vec![Diagnostic { pos: pos(13), kind: DiagnosticKind::TypeMismatch(BOOLEAN), related: vec![] }]
    );
}

#[test]
fn open_actual_is_accepted() {
    let (ctx, region) = context();
    let fr = port_a_in();
    let open = ActualPos { item: ActualPart::Open, pos: pos(11) };
    let (verdict, _) = check(&ctx, region, &fr, &[named(A, 10, open)]);
    assert_eq!(verdict, Some(true));
}

#[test]
fn formal_with_default_may_be_omitted() {
    let (ctx, region) = context();
    let mut fr = FormalRegion::new(InterfaceListType::Generic);
    fr.add(formal(A, NATURAL, false, true, 100));
    let (verdict, diagnostics) = check(&ctx, region, &fr, &[]);
    assert_eq!(verdict, Some(true));
    assert!(diagnostics.is_empty());
}

#[test]
fn repeated_association_is_not_rejected() {
    let (ctx, region) = context();
    let fr = port_a_in();
    let elems = [named(A, 10, integer(1, 11)), named(A, 12, integer(2, 13))];
    let (verdict, diagnostics) = check(&ctx, region, &fr, &elems);
    assert_eq!(verdict, Some(true));
    assert!(diagnostics.is_empty());
}

#[test]
fn earlier_diagnostics_are_kept() {
    let (ctx, region) = context();
    let fr = ports_a_in_b_out();
    let earlier = Diagnostic { pos: pos(7), kind: DiagnosticKind::IndexMismatch, related: vec![] };
    let mut diagnostics = vec![earlier.clone()];
    let verdict =
        ctx.analyze_assoc_elems_with_formal_region(pos(0), &fr, region, &[positional(integer(1, 1)), positional(integer(2, 2)), positional(integer(3, 3))], &mut diagnostics, &mut Vec::new());
    assert_eq!(verdict, Some(false));
    assert_eq!(diagnostics.len(), 2);
    assert_eq!(diagnostics[0], earlier);
}

fn record_and_array_formals() -> FormalRegion {
    let mut fr = FormalRegion::new(InterfaceListType::Port);
    fr.add(formal(A, REC, false, false, 100));
    fr.add(formal(B, ARR, false, false, 101));
    fr.add(formal(C, NATURAL, false, false, 102));
    fr
}

#[test]
fn resolves_plain_formal() {
    let (ctx, region) = context();
    let fr = record_and_array_formals();
    let r = ctx.resolve_formal(&fr, region, pos(10), &Name::Designator(B), &mut Vec::new());
    assert_eq!(r, Ok(ResolvedFormal::Basic(1, fr.entities[1])));
}

#[test]
fn resolves_record_element() {
    let (ctx, region) = context();
    let fr = record_and_array_formals();
    let name = Name::Selected(Box::new(designator(A, 10)), WithPos { item: F, pos: pos(12) });
    let r = ctx.resolve_formal(&fr, region, pos(10), &name, &mut Vec::new()).unwrap();
    assert_eq!(r, ResolvedFormal::Selected(0, fr.entities[0], NATURAL));
    assert_eq!(r.type_mark(), NATURAL);
    assert_eq!(r.idx(), 0);
}

#[test]
fn missing_record_element_is_reported() {
    let (ctx, region) = context();
    let fr = record_and_array_formals();
    let name = Name::Selected(Box::new(designator(A, 10)), WithPos { item: G, pos: pos(12) });
    let r = ctx.resolve_formal(&fr, region, pos(10), &name, &mut Vec::new());
    assert_eq!(r, Err(Diagnostic { pos: pos(12), kind: DiagnosticKind::NoSuchElement(G), related: vec![] }));
}

#[test]
fn resolves_indexed_element_both_spellings() {
    let (ctx, region) = context();
    let fr = record_and_array_formals();
    let indexed = Name::Indexed(
        Box::new(designator(B, 10)),
        vec![ExprPos { item: Expression::Integer(0), pos: pos(12) }],
    );
    let r = ctx.resolve_formal(&fr, region, pos(10), &indexed, &mut Vec::new()).unwrap();
    assert_eq!(r, ResolvedFormal::Selected(1, fr.entities[1], NATURAL));
    let called = Name::FunctionCall(Box::new(CallOrIndexed {
        name: designator(B, 10),
        parameters: vec![positional(integer(0, 12))],
    }));
    let r = ctx.resolve_formal(&fr, region, pos(10), &called, &mut Vec::new()).unwrap();
    assert_eq!(r, ResolvedFormal::Selected(1, fr.entities[1], NATURAL));
}

#[test]
fn wrong_number_of_indexes_is_reported() {
    let (ctx, region) = context();
    let fr = record_and_array_formals();
    let indexed = Name::Indexed(
        Box::new(designator(B, 10)),
        vec![ExprPos { item: Expression::Integer(0), pos: pos(12) }, ExprPos { item: Expression::Integer(1), pos: pos(13) }],
    );
    let r = ctx.resolve_formal(&fr, region, pos(10), &indexed, &mut Vec::new());
    assert_eq!(r, Err(Diagnostic { pos: pos(10), kind: DiagnosticKind::IndexMismatch, related: vec![] }));
}

#[test]
fn slice_keeps_formal() {
    let (ctx, region) = context();
    let fr = record_and_array_formals();
    let range = DiscreteRange { left: Expression::Integer(0), right: Expression::Integer(3) };
    let r = ctx.resolve_formal(&fr, region, pos(10), &Name::Slice(Box::new(designator(B, 10)), range), &mut Vec::new()).unwrap();
    assert_eq!(r, ResolvedFormal::Basic(1, fr.entities[1]));
}

#[test]
fn attributes_all_and_external_names_are_invalid() {
    let (ctx, region) = context();
    let fr = record_and_array_formals();
    let invalid = Err(Diagnostic { pos: pos(10), kind: DiagnosticKind::InvalidFormal, related: vec![] });
    assert_eq!(ctx.resolve_formal(&fr, region, pos(10), &Name::Attribute(Box::new(designator(B, 10)), F), &mut Vec::new()), invalid);
    assert_eq!(ctx.resolve_formal(&fr, region, pos(10), &Name::SelectedAll(Box::new(designator(B, 10))), &mut Vec::new()), invalid);
    assert_eq!(ctx.resolve_formal(&fr, region, pos(10), &Name::External, &mut Vec::new()), invalid);
}

#[test]
fn conversion_by_single_function() {
    let (mut ctx, region) = context();
    declare(&mut ctx, region, CONV, function(NATURAL, SLV), 50);
    declare(&mut ctx, region, CONV, function(BOOLEAN, SLV), 51);
    let fr = record_and_array_formals();
    let r = ctx.resolve_formal(&fr, region, pos(10), &call(designator(CONV, 10), C, 12), &mut Vec::new()).unwrap();
    assert_eq!(r, ResolvedFormal::Converted(2, fr.entities[2], SLV));
    assert_eq!(r.base_type(), SLV);
}

#[test]
fn ambiguous_conversion_lists_candidates() {
    let (mut ctx, region) = context();
    declare(&mut ctx, region, CONV, function(NATURAL, SLV), 50);
    declare(&mut ctx, region, CONV, function(BOOLEAN, SLV), 51);
    declare(&mut ctx, region, CONV, function(NATURAL, BOOLEAN), 52);
    let fr = record_and_array_formals();
    let r = ctx.resolve_formal(&fr, region, pos(10), &call(designator(CONV, 11), C, 12), &mut Vec::new());
    assert_eq!(
        r,
        Err(Diagnostic { pos: pos(11), kind: DiagnosticKind::AmbiguousCall(CONV), related: vec![pos(50), pos(52)] })
    );
}

#[test]
fn conversion_without_matching_function() {
    let (mut ctx, region) = context();
    declare(&mut ctx, region, CONV, function(BOOLEAN, SLV), 50);
    let fr = record_and_array_formals();
    let r = ctx.resolve_formal(&fr, region, pos(10), &call(designator(CONV, 11), C, 12), &mut Vec::new());
    assert_eq!(
        r,
        Err(Diagnostic { pos: pos(11), kind: DiagnosticKind::NoFunctionAccepting(CONV, NATURAL), related: vec![] })
    );
}

#[test]
fn conversion_by_type() {
    let (mut ctx, region) = context();
    declare(&mut ctx, region, T, EntityKind::Type(SLV), 50);
    let fr = record_and_array_formals();
    let r = ctx.resolve_formal(&fr, region, pos(10), &call(designator(T, 10), C, 12), &mut Vec::new());
    assert_eq!(r, Ok(ResolvedFormal::Converted(2, fr.entities[2], SLV)));
}

#[test]
fn conversion_by_object_is_refused() {
    let (mut ctx, region) = context();
    declare(&mut ctx, region, K, EntityKind::Object(NATURAL), 50);
    let fr = record_and_array_formals();
    let r = ctx.resolve_formal(&fr, region, pos(10), &call(designator(K, 10), C, 12), &mut Vec::new());
    assert_eq!(r, Err(Diagnostic { pos: pos(10), kind: DiagnosticKind::ExpectedFunction, related: vec![] }));
}

#[test]
fn conversion_of_unknown_name_or_shape_is_refused() {
    let (ctx, region) = context();
    let fr = record_and_array_formals();
    let bad = Err(Diagnostic { pos: pos(10), kind: DiagnosticKind::InvalidFormalConversion, related: vec![] });
    // The callee is not declared.
    assert_eq!(ctx.resolve_formal(&fr, region, pos(10), &call(designator(CONV, 10), C, 12), &mut Vec::new()), bad);
    // The argument is not a bare name.
    let two_args = Name::FunctionCall(Box::new(CallOrIndexed {
        name: designator(CONV, 10),
        parameters: vec![positional(name_actual(C, 12)), positional(name_actual(C, 13))],
    }));
    assert_eq!(ctx.resolve_formal(&fr, region, pos(10), &two_args, &mut Vec::new()), bad);
}

#[test]
fn converted_formal_cannot_be_selected_indexed_or_sliced() {
    let (mut ctx, region) = context();
    declare(&mut ctx, region, CONV, function(NATURAL, REC), 50);
    let fr = record_and_array_formals();
    let converted = || name_at(call(designator(CONV, 10), C, 12), 10);
    assert!(ctx.resolve_formal(&fr, region, pos(10), &converted().item, &mut Vec::new()).is_ok());
    let invalid = Err(Diagnostic { pos: pos(9), kind: DiagnosticKind::InvalidFormal, related: vec![] });
    let selected = Name::Selected(Box::new(converted()), WithPos { item: F, pos: pos(14) });
    assert_eq!(ctx.resolve_formal(&fr, region, pos(9), &selected, &mut Vec::new()), invalid);
    let range = DiscreteRange { left: Expression::Integer(0), right: Expression::Integer(3) };
    assert_eq!(ctx.resolve_formal(&fr, region, pos(9), &Name::Slice(Box::new(converted()), range), &mut Vec::new()), invalid);
    let indexed = Name::Indexed(Box::new(converted()), vec![ExprPos { item: Expression::Integer(0), pos: pos(14) }]);
    assert!(ctx.resolve_formal(&fr, region, pos(9), &indexed, &mut Vec::new()).is_err());
    let called = Name::FunctionCall(Box::new(CallOrIndexed {
        name: converted(),
        parameters: vec![positional(integer(0, 14))],
    }));
    assert!(ctx.resolve_formal(&fr, region, pos(9), &called, &mut Vec::new()).is_err());
}

#[test]
fn select_on_converted_fails() {
    let ent = formal(A, NATURAL, false, false, 100);
    assert_eq!(ResolvedFormal::Converted(0, ent, SLV).select(NATURAL), None);
    assert_eq!(ResolvedFormal::Basic(0, ent).select(BOOLEAN), Some(ResolvedFormal::Selected(0, ent, BOOLEAN)));
    assert_eq!(
        ResolvedFormal::Selected(0, ent, SLV).select(BOOLEAN),
        Some(ResolvedFormal::Selected(0, ent, BOOLEAN))
    );
}

#[test]
fn subtype_formal_checks_against_base_type() {
    let ent = formal(A, SMALL, false, false, 100);
    assert_eq!(ResolvedFormal::Basic(0, ent).base_type(), NATURAL);
}

#[test]
fn single_parameter_calls_allow_defaults() {
    let sig = Signature {
        params: vec![Param { typ: SMALL, has_default: false }, Param { typ: BOOLEAN, has_default: true }],
        return_type: Some(NATURAL),
    };
    assert!(sig.can_be_called_with_single_parameter(&NATURAL));
    assert!(!sig.can_be_called_with_single_parameter(&BOOLEAN));
    let two = Signature {
        params: vec![Param { typ: NATURAL, has_default: false }, Param { typ: BOOLEAN, has_default: false }],
        return_type: Some(NATURAL),
    };
    assert!(!two.can_be_called_with_single_parameter(&NATURAL));
}

#[test]
fn lookup_finds_overloads_and_nearest_region() {
    let mut scopes = Scopes::new();
    let outer = scopes.new_region(None);
    scopes.declare(outer, A, EntityKind::Object(NATURAL), pos(1)).unwrap();
    scopes.declare(outer, CONV, function(NATURAL, SLV), pos(2)).unwrap();
    scopes.declare(outer, K, EntityKind::Object(NATURAL), pos(3)).unwrap();
    scopes.declare(outer, CONV, function(BOOLEAN, SLV), pos(4)).unwrap();
    let inner = scopes.new_region(Some(outer));
    scopes.declare(inner, A, EntityKind::Object(BOOLEAN), pos(5)).unwrap();
    assert_eq!(scopes.lookup(inner, A), Some(NamedEntities::Single(EntityId { region: inner, index: 0 })));
    assert_eq!(scopes.lookup(inner, K), Some(NamedEntities::Single(EntityId { region: outer, index: 2 })));
    assert_eq!(
        scopes.lookup(inner, CONV),
        Some(NamedEntities::Overloaded(vec![EntityId { region: outer, index: 1 }, EntityId { region: outer, index: 3 }]))
    );
    assert_eq!(scopes.lookup(inner, B), None);
}

#[test]
fn refused_declaration_is_not_added() {
    let mut scopes = Scopes::new();
    let r = scopes.new_region(None);
    scopes.declare(r, A, EntityKind::Object(NATURAL), pos(1)).unwrap();
    let err = scopes.declare(r, A, EntityKind::Other, pos(2)).unwrap_err();
    assert_eq!(err, Diagnostic { pos: pos(2), kind: DiagnosticKind::Duplicate(A), related: vec![pos(1)] });
    assert_eq!(scopes.regions[r].entities.len(), 1);
    assert!(scopes.declare(r, B, function(NATURAL, SLV), pos(3)).is_ok());
    assert!(scopes.declare(r, B, function(BOOLEAN, SLV), pos(4)).is_ok());
    assert!(scopes.declare(r, B, EntityKind::Other, pos(5)).is_err());
}

#[test]
fn nested_region_may_shadow() {
    let mut scopes = Scopes::new();
    let outer = scopes.new_region(None);
    scopes.declare(outer, A, EntityKind::Object(NATURAL), pos(1)).unwrap();
    let inner = scopes.new_region(Some(outer));
    assert!(scopes.declare(inner, A, EntityKind::Object(NATURAL), pos(2)).is_ok());
    let body = scopes.new_extended_region(outer);
    assert_eq!(
        scopes.declare(body, A, EntityKind::Object(NATURAL), pos(3)),
        Err(Diagnostic { pos: pos(3), kind: DiagnosticKind::Duplicate(A), related: vec![pos(1)] })
    );
}

#[test]
fn formal_region_lookup_and_nth() {
    let fr = ports_a_in_b_out();
    assert_eq!(fr.lookup(pos(9), B), Ok((1, fr.entities[1])));
    assert_eq!(fr.lookup(pos(9), C), Err(Diagnostic { pos: pos(9), kind: DiagnosticKind::InvalidFormal, related: vec![] }));
    assert_eq!(fr.nth(0), Some(fr.entities[0]));
    assert_eq!(fr.nth(2), None);
    assert_eq!(fr.len(), 2);
}

fn clear(at: usize) -> RefUpdate {
    RefUpdate { pos: pos(at), target: None }
}

fn set(at: usize, target: Reference) -> RefUpdate {
    RefUpdate { pos: pos(at), target: Some(target) }
}

#[test]
fn references_are_cleared_then_set() {
    let (ctx, region) = context();
    let fr = record_and_array_formals();
    let mut refs = Vec::new();
    ctx.resolve_formal(&fr, region, pos(10), &Name::Designator(B), &mut refs).unwrap();
    assert_eq!(refs, vec![clear(10), set(10, Reference::Formal(1))]);
    let name = Name::Selected(Box::new(designator(A, 10)), WithPos { item: F, pos: pos(12) });
    let mut refs = Vec::new();
    ctx.resolve_formal(&fr, region, pos(10), &name, &mut refs).unwrap();
    assert_eq!(refs, vec![clear(12), clear(10), set(10, Reference::Formal(0)), set(12, Reference::Element(REC, F))]);
}

#[test]
fn failed_resolution_leaves_references_cleared() {
    let (ctx, region) = context();
    let fr = record_and_array_formals();
    let mut refs = vec![set(3, Reference::Formal(0))];
    assert!(ctx.resolve_formal(&fr, region, pos(10), &Name::Designator(G), &mut refs).is_err());
    assert_eq!(refs, vec![set(3, Reference::Formal(0)), clear(10)]);
    let name = Name::Selected(Box::new(designator(A, 10)), WithPos { item: G, pos: pos(12) });
    let mut refs = Vec::new();
    assert!(ctx.resolve_formal(&fr, region, pos(10), &name, &mut refs).is_err());
    assert_eq!(refs, vec![clear(12), clear(10), set(10, Reference::Formal(0))]);
}

#[test]
fn conversion_references_formal_and_function() {
    let (mut ctx, region) = context();
    declare(&mut ctx, region, CONV, function(BOOLEAN, SLV), 50);
    declare(&mut ctx, region, CONV, function(NATURAL, SLV), 51);
    let fr = record_and_array_formals();
    let mut refs = Vec::new();
    ctx.resolve_formal(&fr, region, pos(10), &call(designator(CONV, 11), C, 12), &mut refs).unwrap();
    let function = EntityId { region, index: 1 };
    assert_eq!(refs, vec![clear(12), set(12, Reference::Formal(2)), clear(11), set(11, Reference::Entity(function))]);
}

#[test]
fn association_list_collects_references_of_named_formals() {
    let (ctx, region) = context();
    let fr = ports_a_in_b_out();
    let mut diagnostics = Vec::new();
    let mut refs = Vec::new();
    let elems = [named(B, 20, integer(1, 21)), positional(integer(2, 22))];
    ctx.analyze_assoc_elems_with_formal_region(pos(0), &fr, region, &elems, &mut diagnostics, &mut refs);
    assert_eq!(refs, vec![clear(20), set(20, Reference::Formal(1))]);
}
