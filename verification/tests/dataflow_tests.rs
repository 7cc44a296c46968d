use vrust::assertions::get_local_vars;
use vrust::dd::{
    assert_macro_filter, copy_dbg_info, follows_edge, DataDepsGraph, DdEdge,
    DdNode, HeuristicFilter,
};
use vrust::mir::{
    AdtDef, BasicBlockData, Body, Constant, Location, Operand, Place, ProjElem, Rvalue, Statement,
    StatementKind, Tcx, Terminator, TerminatorKind, TyDesc, TyKind, VarDebugInfo,
};
use vrust::ty_confusion::BorshDeserializeStmt;
use vrust::visit::{body_item_count, get_all_fields, is_from_assert_eq_macro, BodyVisitor, DefSource};

// Symbols: 0 "amount", 1 "authority", 2 "ctx", 3 "left_val".
// Types: 0 u64, 1 Ctx (an ADT, definition 1), 2 fn deref (definition 2).
fn ctx_tcx() -> Tcx {
    Tcx {
        def_paths: vec!["prog::handler".to_string(), "prog::Ctx".to_string(), "std::ops::Deref::deref".to_string()],
        symbols: vec!["amount".to_string(), "authority".to_string(), "ctx".to_string(), "left_val".to_string()],
        types: vec![
            TyDesc { kind: TyKind::Numeric, display: "u64".to_string(), layout_size: Some(8) },
            TyDesc { kind: TyKind::Adt { did: 1, substs: Vec::new() }, display: "Ctx".to_string(), layout_size: None },
            TyDesc { kind: TyKind::FnDef(2), display: "fn".to_string(), layout_size: None },
        ],
        adts: vec![
            None,
            Some(AdtDef { field_names: vec![0, 1], field_tys: vec![0, 0], is_struct: true, span: 0 }),
            None,
        ],
        bodies: vec![None, None, None],
        fn_items: vec![0],
        struct_items: vec![1],
        spans: Vec::new(),
        unit_ty: 0,
        bool_ty: 0,
        all_traits: Vec::new(),
        trait_impls: Vec::new(),
    }
}

fn local(l: u32) -> Place {
    Place { local: l, projection: Vec::new() }
}

fn field(l: u32, f: u32) -> Place {
    Place { local: l, projection: vec![ProjElem::Field { field: f, ty: 0 }] }
}

fn konst(literal: u32, text: &str) -> Constant {
    Constant { ty: 0, literal, display: text.to_string(), debug: text.to_string(), resolved: None }
}

fn assign(to: Place, rv: Rvalue) -> Statement {
    Statement { kind: StatementKind::Assign(to, rv), span: 0 }
}

/// Locals: 0 return, 1 `amount: u64` (user), 2 `ctx: Ctx` (user), 3..=9 temporaries.
fn handler_body() -> Body {
    let deref = Terminator {
        kind: TerminatorKind::Call {
            func: Operand::Constant(Constant { ty: 2, literal: 9, display: "deref".to_string(), debug: "deref".to_string(), resolved: Some(2) }),
            args: vec![Operand::Copy(local(5))],
            destination: Some((local(9), 1)),
            fn_span: 0,
        },
        span: 0,
    };
    Body {
        def_id: 0,
        arg_count: 2,
        local_decls: vec![0, 0, 1, 0, 0, 0, 0, 0, 0, 0],
        var_debug_info: vec![
            VarDebugInfo { name: 0, place: Some(local(1)), span: 0 },
            VarDebugInfo { name: 2, place: Some(local(2)), span: 0 },
        ],
        basic_blocks: vec![
            BasicBlockData {
                statements: vec![
                    assign(local(3), Rvalue::Use(Operand::Copy(local(1)))),
                    assign(local(4), Rvalue::Use(Operand::Constant(konst(7, "7_u64")))),
                    assign(local(5), Rvalue::Ref(field(2, 1))),
                    assign(local(6), Rvalue::Use(Operand::Copy(local(7)))),
                    assign(local(7), Rvalue::Use(Operand::Copy(local(6)))),
                ],
                terminator: Some(Terminator { kind: TerminatorKind::SwitchInt { discr: Operand::Copy(local(3)) }, span: 0 }),
                predecessors: Vec::new(),
            },
            BasicBlockData { statements: Vec::new(), terminator: Some(deref), predecessors: vec![0] },
        ],
        rpo: vec![0, 1],
        span: 0,
        is_closure: false,
        user_vars: vec![false, true, true, false, false, false, false, false, false, false],
    }
}

#[test]
fn assert_eq_temporaries() {
    assert!(is_from_assert_eq_macro("left_val"));
    assert!(is_from_assert_eq_macro("right_val"));
    assert!(!is_from_assert_eq_macro("left"));
}

#[test]
fn field_names_of_projections() {
    let adt = AdtDef { field_names: vec![10, 11], field_tys: vec![0, 0], is_struct: true, span: 0 };
    let proj = vec![ProjElem::Deref, ProjElem::Field { field: 1, ty: 0 }, ProjElem::Field { field: 0, ty: 0 }];
    assert_eq!(get_all_fields(&adt, &proj), Some(vec![11, 10]));
    assert_eq!(get_all_fields(&adt, &Vec::new()), Some(Vec::new()));
    assert_eq!(get_all_fields(&adt, &vec![ProjElem::Field { field: 2, ty: 0 }]), None);
}

#[test]
fn item_count_counts_statements_and_terminators() {
    assert_eq!(body_item_count(&handler_body()), 7);
}

#[test]
fn visitor_records_definitions_and_switches() {
    let tcx = ctx_tcx();
    let body = handler_body();
    let mut v = BodyVisitor::<BorshDeserializeStmt>::new(&tcx, true);
    v.visit_body(&body);
    assert_eq!(v.switchint.len(), 1);
    assert!(v.focus.is_empty());
    let dbg = get_local_vars(&tcx, &body);
    // `amount` is a parameter of a number type: no source.
    assert!(v.backtrack(&local(3), &body, &dbg).is_none());
    match v.backtrack(&local(4), &body, &dbg) {
        Some(DefSource::Const(c)) => assert_eq!(c.display, "7_u64"),
        _ => panic!("_4 is a constant"),
    }
    match v.backtrack(&local(5), &body, &dbg) {
        Some(DefSource::Var { name, fields }) => {
            assert_eq!(name, 2);
            assert_eq!(fields, vec![1]);
        },
        _ => panic!("_5 is a reference to ctx.authority"),
    }
    match v.backtrack(&local(9), &body, &dbg) {
        Some(DefSource::Var { name, fields }) => {
            assert_eq!(name, 2);
            assert_eq!(fields, vec![1]);
        },
        _ => panic!("_9 is the dereference of _5"),
    }
    assert!(v.backtrack(&local(6), &body, &dbg).is_none());
    assert!(v.backtrack(&local(8), &body, &dbg).is_none());
    assert_eq!(v.get_def(&local(4), &body, &dbg).len(), 1);
    assert!(v.get_def(&local(8), &body, &dbg).is_empty());
}

#[test]
fn assert_eq_temporaries_are_not_sources() {
    let tcx = ctx_tcx();
    let mut body = handler_body();
    body.var_debug_info[1].name = 3;
    let mut v = BodyVisitor::<BorshDeserializeStmt>::new(&tcx, false);
    v.visit_body(&body);
    let dbg = get_local_vars(&tcx, &body);
    assert!(v.backtrack(&local(5), &body, &dbg).is_none());
    assert!(v.backtrack(&local(4), &body, &dbg).is_some());
}

#[test]
fn debug_info_is_copied() {
    let body = handler_body();
    let copy = copy_dbg_info(&body.var_debug_info);
    assert_eq!(copy.len(), 2);
    assert_eq!(copy[1].name, 2);
}

#[test]
fn edges_followed_by_a_search() {
    assert!(follows_edge(&DdEdge::Assign, false));
    assert!(!follows_edge(&DdEdge::FieldRef(0), false));
    assert!(follows_edge(&DdEdge::FieldRef(0), true));
}

#[test]
fn sources_of_places() {
    let tcx = ctx_tcx();
    let body = handler_body();
    let g = DataDepsGraph::new(&body, &tcx, HeuristicFilter::NoFilter);
    match g.origin_source(&local(3), false) {
        Some(DdNode::LocalDecl { local, dbg_info, .. }) => {
            assert_eq!(*local, 1);
            assert_eq!(*dbg_info, 1);
        },
        _ => panic!("_3 comes from amount"),
    }
    match g.origin_source(&local(4), false) {
        Some(DdNode::Constant { val }) => assert_eq!(val.literal, 7),
        _ => panic!("_4 is a constant"),
    }
    match g.origin_source(&local(5), false) {
        Some(DdNode::PartialFieldRef { base }) => assert_eq!(base.local, 2),
        _ => panic!("without passing fields, _5 stops at ctx.authority"),
    }
    match g.origin_source(&local(5), true) {
        Some(DdNode::LocalDecl { local, .. }) => assert_eq!(*local, 2),
        _ => panic!("passing fields, _5 comes from ctx"),
    }
    assert!(g.origin_source(&local(0), false).is_none());
    assert!(g.origin_source(&local(6), false).is_none());
    match g.origin_op_source(&Operand::Constant(konst(7, "7_u64")), false) {
        Some(DdNode::Constant { .. }) => {},
        _ => panic!("the constant has a node"),
    }
    assert!(g.origin_op_source(&Operand::Constant(konst(8, "8")), false).is_none());
    let a = Operand::Copy(local(3));
    let b = Operand::Copy(local(0));
    let both = g.origin_ops_source(&[&a, &b], false);
    assert_eq!(both.len(), 2);
    assert!(both[0].is_some() && both[1].is_none());
}

#[test]
fn name_filter_passes_over_variables() {
    let tcx = ctx_tcx();
    let body = handler_body();
    let g = DataDepsGraph::new(&body, &tcx, HeuristicFilter::NameFilter(vec!["amount".to_string()]));
    assert!(g.origin_source(&local(3), false).is_none());
    let h = assert_macro_filter();
    assert!(matches!(h, HeuristicFilter::NameFilter(ref names) if names.len() == 2));
}

#[test]
fn call_depends_on_the_switches_before_it() {
    let tcx = ctx_tcx();
    let body = handler_body();
    let g = DataDepsGraph::new(&body, &tcx, HeuristicFilter::NoFilter);
    let deps = g.depends_source(Location { block: 1, statement_index: 0 }, &body);
    assert!(!deps.is_empty());
    assert!(deps.iter().any(|n| matches!(n, DdNode::LocalDecl { local: 1, .. })));
    assert!(g.depends_source(Location { block: 0, statement_index: 0 }, &body).is_empty());
}

#[test]
fn left_place_node_found_once() {
    let tcx = ctx_tcx();
    let body = handler_body();
    let mut g = DataDepsGraph::new(&body, &tcx, HeuristicFilter::NoFilter);
    let p = field(1, 3);
    let first = g.get_left_place_node(&p);
    let second = g.get_left_place_node(&p);
    assert!(first.is_some());
    assert_eq!(first, second);
    let l = g.get_left_place_node(&local(3));
    assert_eq!(g.get_left_place_node(&local(3)), l);
    assert_ne!(l, first);
}
