use vrust::callgraph::{self as cg, CallGraph};
use vrust::checkers::bump_seed::{const_callee_exec, is_bump_var, BumpSeed};
use vrust::checkers::precision::RoundChecker;
use vrust::dd::{assert_macro_filter, DataDepsGraph};
use vrust::mir::{
    BasicBlockData, Body, Constant, Operand, Place, Rvalue, SpanInfo, Statement, StatementKind, Tcx,
    Terminator, TerminatorKind, TyDesc, TyKind, VarDebugInfo,
};
use vrust::reporter::{Report, VulnerabilityType};
use vrust::checkers::is_signer_checker::is_signer_checker;
use vrust::wpa::{StateMachine, StateTransitor, WholeProgramTraverser};

// Definitions: 0 prog::entrypoint, 1 the callee of the test.
// Symbols: 0 "bump".
// Types: 0 u64, 1 fn of definition 1.
fn tcx_calling(callee_path: &str, stmts: Vec<Statement>, call: Terminator) -> Tcx {
    let entry = Body {
        def_id: 0,
        arg_count: 1,
        local_decls: vec![0, 0, 0, 0],
        var_debug_info: vec![VarDebugInfo { name: 0, place: Some(Place { local: 1, projection: Vec::new() }), span: 0 }],
        basic_blocks: vec![BasicBlockData { statements: stmts, terminator: Some(call), predecessors: Vec::new() }],
        rpo: vec![0],
        span: 0,
        is_closure: false,
        user_vars: vec![false, true, false, false],
    };
    Tcx {
        def_paths: vec!["prog::entrypoint".to_string(), callee_path.to_string()],
        symbols: vec!["bump".to_string()],
        types: vec![
            TyDesc { kind: TyKind::Numeric, display: "u64".to_string(), layout_size: Some(8) },
            TyDesc { kind: TyKind::FnDef(1), display: "fn".to_string(), layout_size: None },
        ],
        adts: Vec::new(),
        bodies: vec![Some(entry), None],
        fn_items: vec![0],
        struct_items: Vec::new(),
        spans: vec![
            SpanInfo {
                diagnostic: "src/lib.rs:1:1: 9:2".to_string(),
                snippet: Some("fn entrypoint".to_string()),
                lo_file: Some("src/lib.rs".to_string()),
                hi_file: Some("src/lib.rs".to_string()),
                same_file: true,
                lines: None,
            },
            SpanInfo {
                diagnostic: "src/math.rs:4:9: 4:20".to_string(),
                snippet: Some("x.round()".to_string()),
                lo_file: Some("src/math.rs".to_string()),
                hi_file: Some("src/math.rs".to_string()),
                same_file: true,
                lines: None,
            },
        ],
        unit_ty: 0,
        bool_ty: 0,
        all_traits: Vec::new(),
        trait_impls: Vec::new(),
    }
}

fn local(l: u32) -> Place {
    Place { local: l, projection: Vec::new() }
}

fn call_of(display: &str, debug: &str, args: Vec<Operand>) -> Terminator {
    Terminator {
        kind: TerminatorKind::Call {
            func: Operand::Constant(Constant {
                ty: 1,
                literal: 0,
                display: display.to_string(),
                debug: debug.to_string(),
                resolved: Some(1),
            }),
            args,
            destination: Some((local(3), 1)),
            fn_span: 1,
        },
        span: 1,
    }
}

fn konst() -> Operand {
    Operand::Constant(Constant { ty: 0, literal: 3, display: "3".to_string(), debug: "3".to_string(), resolved: None })
}

#[test]
fn rounding_calls_are_reported() {
    let tcx = tcx_calling(
        "std::f64::<impl f64>::round",
        Vec::new(),
        call_of("std::f64::<impl f64>::round", "round", vec![Operand::Copy(local(1))]),
    );
    let mut report = Report::new(None);
    WholeProgramTraverser::<RoundChecker>::new(&tcx).start(&mut report);
    assert_eq!(report.total, 1);
    let v = &report.vulns_map[0];
    assert_eq!(v.category, VulnerabilityType::Precision);
    assert_eq!(v.location, "prog::entrypoint");
    assert_eq!(v.code, "src/math.rs");
    assert_eq!(v.context, "src/lib.rs:1:1: 9:2 \n\tfn entrypoint");
    assert_eq!(report.oth_cnt, 1);
}

#[test]
fn other_calls_are_not_rounding() {
    let tcx = tcx_calling("std::f64::<impl f64>::floor", Vec::new(), call_of("std::f64::<impl f64>::floor", "floor", Vec::new()));
    let mut report = Report::new(None);
    WholeProgramTraverser::<RoundChecker>::new(&tcx).start(&mut report);
    assert_eq!(report.total, 0);
}

#[test]
fn external_bump_seed_reaches_create_program_address() {
    let stmts = vec![Statement {
        kind: StatementKind::Assign(local(2), Rvalue::Aggregate(vec![Operand::Copy(local(1)), konst()])),
        span: 1,
    }];
    let call = call_of("create_program_address", "cpa", vec![Operand::Copy(local(2)), konst()]);
    let tcx = tcx_calling("anchor_lang::prelude::Pubkey::create_program_address", stmts, call);
    assert!(is_bump_var(&local(1), tcx.bodies[0].as_ref().unwrap(), &tcx));
    assert!(!is_bump_var(&local(2), tcx.bodies[0].as_ref().unwrap(), &tcx));
    let t = tcx.bodies[0].as_ref().unwrap().basic_blocks[0].terminator.as_ref().unwrap();
    assert_eq!(const_callee_exec(&tcx, t), Some(1));
    let mut report = Report::new(None);
    WholeProgramTraverser::<BumpSeed>::new(&tcx).start(&mut report);
    assert_eq!(report.total, 1);
    assert_eq!(report.vulns_map[0].category, VulnerabilityType::BumpSeed);
}

#[test]
fn constant_seeds_are_not_reported() {
    let stmts = vec![Statement { kind: StatementKind::Assign(local(2), Rvalue::Aggregate(vec![konst()])), span: 1 }];
    let call = call_of("create_program_address", "cpa", vec![Operand::Copy(local(2)), konst()]);
    let tcx = tcx_calling("anchor_lang::prelude::Pubkey::create_program_address", stmts, call);
    let mut report = Report::new(None);
    WholeProgramTraverser::<BumpSeed>::new(&tcx).start(&mut report);
    assert_eq!(report.total, 0);
}

#[test]
fn signer_try_accounts_marks_the_signer_checked() {
    let call = call_of("try_accounts", "<Signer as anchor_lang::Accounts>::try_accounts", vec![konst()]);
    let tcx = tcx_calling("anchor_lang::Accounts::try_accounts", Vec::new(), call);
    let body = tcx.bodies[0].as_ref().unwrap();
    let ddg = DataDepsGraph::new(body, &tcx, assert_macro_filter());
    let g = CallGraph::new(body, &tcx, ddg, cg::assert_macro_filter());
    assert!(g.is_signer);
    assert_eq!(g.is_signer_var, "<Signer as anchor_lang::Accounts>::try_accounts");
    assert_eq!(g.is_signer_span, Some(1));
}

#[test]
fn other_calls_leave_the_signer_unchecked() {
    let call = call_of("transfer", "prog::transfer", vec![konst()]);
    let tcx = tcx_calling("prog::transfer", Vec::new(), call);
    let body = tcx.bodies[0].as_ref().unwrap();
    let ddg = DataDepsGraph::new(body, &tcx, assert_macro_filter());
    let g = CallGraph::new(body, &tcx, ddg, cg::assert_macro_filter());
    assert!(!g.is_signer);
    assert!(!g.has_signer);
}

#[test]
fn signer_states_merge_their_knowledge() {
    let tcx = tcx_calling("prog::transfer", Vec::new(), call_of("transfer", "prog::transfer", Vec::new()));
    let body = tcx.bodies[0].as_ref().unwrap();
    let mut sm: StateMachine<is_signer_checker> = StateMachine::new();
    let mut a = is_signer_checker::default();
    a.has_signer_check = true;
    a.signer_var_name = "auth".to_string();
    let mut b = is_signer_checker::default();
    b.has_signer_var = true;
    b.signer_var_name = "authority".to_string();
    let m = a.merge(b.dup(), body, &tcx, &mut sm);
    assert!(m.has_signer_check);
    assert!(m.has_signer_var);
    assert_eq!(m.signer_var_name, "authority");
    let c = is_signer_checker::default();
    let n = b.merge(c, body, &tcx, &mut sm);
    assert_eq!(n.signer_var_name, "authority");
    assert!(!n.has_signer_check);
}
