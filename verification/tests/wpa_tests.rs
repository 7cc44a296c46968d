use vrust::analysis::{analyze, run_checkers};
use vrust::checkers::overflow::{should_filter, ExternalNumeric};
use vrust::mir::{
    BasicBlockData, BinOp, Body, Constant, Operand, Place, Rvalue, SpanInfo, Statement,
    StatementKind, Tcx, Terminator, TerminatorKind, TyDesc, TyKind,
};
use vrust::reporter::{Report, VulnerabilityType};
use vrust::version::LockPackage;
use vrust::wpa::{find_entry, is_match, is_match_any, FullPlaceRef, StateMachine, WholeProgramTraverser};

const NUM_TY: u32 = 0;

fn tcx_with(paths: &[&str]) -> Tcx {
    Tcx {
        def_paths: paths.iter().map(|p| p.to_string()).collect(),
        symbols: Vec::new(),
        types: vec![TyDesc { kind: TyKind::Numeric, display: "u64".to_string(), layout_size: Some(8) }],
        adts: Vec::new(),
        bodies: paths.iter().map(|_| None).collect(),
        fn_items: Vec::new(),
        struct_items: Vec::new(),
        spans: Vec::new(),
        unit_ty: 0,
        bool_ty: 0,
        all_traits: Vec::new(),
        trait_impls: Vec::new(),
    }
}

fn add_span(tcx: &mut Tcx, diag: &str, snippet: &str) -> u32 {
    tcx.spans.push(SpanInfo {
        diagnostic: diag.to_string(),
        snippet: Some(snippet.to_string()),
        lo_file: Some("src/lib.rs".to_string()),
        hi_file: Some("src/lib.rs".to_string()),
        same_file: true,
        lines: None,
    });
    (tcx.spans.len() - 1) as u32
}

fn fn_def_ty(tcx: &mut Tcx, callee: u32) -> u32 {
    tcx.types.push(TyDesc { kind: TyKind::FnDef(callee), display: "fn".to_string(), layout_size: None });
    (tcx.types.len() - 1) as u32
}

fn local(l: u32) -> Place {
    Place { local: l, projection: Vec::new() }
}

fn int_const(v: &str) -> Operand {
    Operand::Constant(Constant {
        ty: NUM_TY,
        literal: 0,
        display: v.to_string(),
        debug: v.to_string(),
        resolved: None,
    })
}

fn fn_const(ty: u32, callee: u32) -> Operand {
    Operand::Constant(Constant {
        ty,
        literal: 0,
        display: "f".to_string(),
        debug: "f".to_string(),
        resolved: Some(callee),
    })
}

fn assign(to: u32, rv: Rvalue, span: u32) -> Statement {
    Statement { kind: StatementKind::Assign(local(to), rv), span }
}

fn call(func: Operand, args: Vec<Operand>, dest: u32, span: u32) -> Terminator {
    Terminator {
        kind: TerminatorKind::Call { func, args, destination: Some((local(dest), 1)), fn_span: span },
        span,
    }
}

fn body(def_id: u32, arg_count: usize, locals: usize, blocks: Vec<BasicBlockData>, span: u32) -> Body {
    let rpo = (0..blocks.len()).collect();
    Body {
        def_id,
        arg_count,
        local_decls: vec![NUM_TY; locals],
        var_debug_info: Vec::new(),
        basic_blocks: blocks,
        rpo,
        span,
        is_closure: false,
        user_vars: vec![false; locals],
    }
}

fn block(statements: Vec<Statement>, terminator: Option<Terminator>) -> BasicBlockData {
    BasicBlockData { statements, terminator, predecessors: Vec::new() }
}

/// `prog::entrypoint(_1)` computes `_2 = _1 + 1` and calls `prog::helper(arg)`,
/// which computes `_0 = _1 * 2`.
fn program(helper_arg: Operand) -> Tcx {
    let mut tcx = tcx_with(&["prog::entrypoint", "prog::helper"]);
    let s_entry = add_span(&mut tcx, "src/lib.rs:1:1: 9:2", "fn entrypoint(x: u64) {..}");
    let s_add = add_span(&mut tcx, "src/lib.rs:2:5: 2:10", "x + 1");
    let s_call = add_span(&mut tcx, "src/lib.rs:3:5: 3:14", "helper(y)");
    let s_helper = add_span(&mut tcx, "src/lib.rs:11:1: 13:2", "fn helper(v: u64) {..}");
    let s_mul = add_span(&mut tcx, "src/lib.rs:12:5: 12:10", "v * 2");
    let helper_ty = fn_def_ty(&mut tcx, 1);
    let entry = body(
        0,
        1,
        4,
        vec![
            block(
                vec![assign(2, Rvalue::BinaryOp(BinOp::Add, Operand::Copy(local(1)), int_const("1")), s_add)],
                Some(call(fn_const(helper_ty, 1), vec![helper_arg], 3, s_call)),
            ),
            block(Vec::new(), None),
        ],
        s_entry,
    );
    let helper = body(
        1,
        1,
        2,
        vec![block(
            vec![assign(0, Rvalue::BinaryOp(BinOp::Mul, Operand::Copy(local(1)), int_const("2")), s_mul)],
            None,
        )],
        s_helper,
    );
    tcx.bodies = vec![Some(entry), Some(helper)];
    tcx.fn_items = vec![1, 0];
    tcx
}

#[test]
fn regex_matching() {
    assert!(is_match("std::.*", "std::vec::Vec::push"));
    assert!(is_match(".*(::)?entrypoint", "my_prog::entrypoint"));
    assert!(!is_match("^anchor_lang::.*", "my_prog::anchor_lang::x"));
    assert!(!is_match("(", "anything"));
    let pats = vec!["std::.*".to_string(), "alloc::.*".to_string()];
    assert!(is_match_any(&pats, "alloc::vec::from_elem"));
    assert!(!is_match_any(&pats, "prog::helper"));
    assert!(!is_match_any(&Vec::new(), "prog::helper"));
}

#[test]
fn entry_is_the_first_matching_item_with_a_body() {
    let tcx = program(int_const("5"));
    assert_eq!(find_entry(&tcx), Some(0));
    let mut no_body = tcx_with(&["a::entrypoint", "b::entrypoint"]);
    no_body.fn_items = vec![0, 1];
    assert_eq!(find_entry(&no_body), None);
    let mut none = program(int_const("5"));
    none.def_paths = vec!["prog::main".to_string(), "prog::helper".to_string()];
    assert_eq!(find_entry(&none), None);
    let mut suffix = program(int_const("5"));
    suffix.def_paths = vec!["prog::my_entrypoint".to_string(), "prog::entrypoint_helper".to_string()];
    assert_eq!(find_entry(&suffix), None);
    let mut root = program(int_const("5"));
    root.def_paths = vec!["entrypoint".to_string(), "prog::helper".to_string()];
    assert_eq!(find_entry(&root), Some(0));
}

#[test]
fn external_arithmetic_is_reported_along_the_call_stack() {
    let tcx = program(Operand::Copy(local(1)));
    let mut report = Report::new(None);
    let mut t = WholeProgramTraverser::<ExternalNumeric>::new(&tcx);
    t.start(&mut report);
    assert_eq!(report.total, 2);
    assert_eq!(report.int_cnt, 2);
    let first = &report.vulns_map[0];
    assert_eq!(first.category, VulnerabilityType::IntegerFlow);
    assert_eq!(first.location, "prog::entrypoint");
    assert_eq!(first.severity, "Critical");
    assert_eq!(first.status, "UnResolved");
    assert_eq!(first.code, "src/lib.rs:2:5: 2:10 \n\tx + 1");
    let second = &report.vulns_map[1];
    assert_eq!(second.location, "prog::helper");
    assert_eq!(second.code, "src/lib.rs:12:5: 12:10 \n\tv * 2");
    assert_eq!(
        second.callstack,
        "fn prog::entrypoint(){// src/lib.rs:1:1: 9:2 }\n\tfn prog::helper(){// src/lib.rs:11:1: 13:2 }\n"
    );
    assert!(t.sm.get_call_stack().is_empty());
}

#[test]
fn constant_arguments_are_not_external() {
    let tcx = program(int_const("5"));
    let mut report = Report::new(None);
    let mut t = WholeProgramTraverser::<ExternalNumeric>::new(&tcx);
    t.start(&mut report);
    assert_eq!(report.total, 1);
    assert_eq!(report.vulns_map[0].location, "prog::entrypoint");
}

#[test]
fn minimum_balance_is_not_checked() {
    assert!(should_filter(&"spl::minimum_balance".to_string()));
    assert!(!should_filter(&"prog::helper".to_string()));
    let mut tcx = program(Operand::Copy(local(1)));
    tcx.def_paths[1] = "prog::minimum_balance".to_string();
    let mut report = Report::new(None);
    let mut t = WholeProgramTraverser::<ExternalNumeric>::new(&tcx);
    t.start(&mut report);
    assert_eq!(report.total, 1);
}

#[test]
fn std_calls_are_not_entered() {
    let mut tcx = program(Operand::Copy(local(1)));
    tcx.def_paths[1] = "std::ops::helper".to_string();
    let mut report = Report::new(None);
    let mut t = WholeProgramTraverser::<ExternalNumeric>::new(&tcx);
    t.start(&mut report);
    assert_eq!(report.total, 1);
}

#[test]
fn no_entry_means_no_findings() {
    let mut tcx = program(Operand::Copy(local(1)));
    tcx.def_paths[0] = "prog::main".to_string();
    let mut report = Report::new(None);
    report.filter_callstack("old".to_string());
    let mut t = WholeProgramTraverser::<ExternalNumeric>::new(&tcx);
    t.start(&mut report);
    assert_eq!(report.total, 0);
    assert!(report.filtered.is_empty());
}

#[test]
fn state_machine_stack_and_states() {
    let mut sm: StateMachine<ExternalNumeric> = StateMachine::new();
    assert!(sm.enter_func(3));
    assert!(sm.enter_func(4));
    assert!(!sm.enter_func(3));
    assert_eq!(sm.get_call_stack(), &[3, 4]);
    assert_eq!(sm.get_cur_func(), 4);
    sm.exit_cur_func();
    assert_eq!(sm.get_cur_func(), 3);
    let k = FullPlaceRef::new(3, local(2));
    assert!(sm.get_state(&k).is_none());
    sm.store(FullPlaceRef::new(3, local(2)), ExternalNumeric { external: true });
    assert_eq!(sm.get_state(&k), Some(&ExternalNumeric { external: true }));
    sm.store(FullPlaceRef::new(3, local(2)), ExternalNumeric { external: false });
    assert_eq!(sm.get_state(&k), Some(&ExternalNumeric { external: false }));
    assert!(sm.get_state(&FullPlaceRef::new(4, local(2))).is_none());
    assert!(sm.get_func_state(3).is_none());
    sm.set_func_state(3, ExternalNumeric { external: true });
    assert_eq!(sm.get_cur_func_state(), Some(&ExternalNumeric { external: true }));
    let f = sm.new_flag(true);
    assert_eq!(f, 0);
    assert!(sm.flag(0));
    sm.set_flag(0, false);
    assert!(!sm.flag(0));
    assert!(!sm.flag(7));
    sm.set_flag(7, true);
    assert!(!sm.flag(7));
}

#[test]
fn updates_merge_states() {
    let tcx = program(int_const("1"));
    let b = tcx.bodies[0].as_ref().unwrap();
    let mut sm: StateMachine<ExternalNumeric> = StateMachine::new();
    sm.enter_func(0);
    sm.update(&local(2), ExternalNumeric { external: true }, b, &tcx);
    sm.update(&local(2), ExternalNumeric { external: false }, b, &tcx);
    assert_eq!(sm.get_state(&FullPlaceRef::new(0, local(2))), Some(&ExternalNumeric { external: true }));
}

#[test]
fn program_id_checker_runs_only_for_old_spl_token() {
    let tcx = program(int_const("1"));
    let mut report = Report::new(None);
    let old = vec![Some(vec![LockPackage { name: "spl-token".to_string(), major: 3, minor: 0, patch: 0 }])];
    assert!(run_checkers(&tcx, &mut report, &old));
    let new = vec![Some(vec![LockPackage { name: "spl-token".to_string(), major: 3, minor: 1, patch: 1 }])];
    let mut report = Report::new(None);
    assert!(!run_checkers(&tcx, &mut report, &new));
    assert_eq!(report.int_cnt, 1);
    let mut report = Report::new(None);
    assert!(!run_checkers(&tcx, &mut report, &Vec::new()));
}

#[test]
fn analysis_names_the_project_and_keeps_earlier_findings() {
    let tcx = program(Operand::Copy(local(1)));
    let mut report = Report::new(Some("1700000000".to_string()));
    report.new_bug(
        VulnerabilityType::BumpSeed,
        "High".to_string(),
        "earlier".to_string(),
        "seed".to_string(),
        String::new(),
        String::new(),
        "UnResolved".to_string(),
        None,
        None,
        None,
    );
    analyze(&tcx, &mut report, "token_swap".to_string(), &Vec::new());
    assert_eq!(report.proj, Some("token_swap".to_string()));
    assert_eq!(report.time, Some("1700000000".to_string()));
    assert_eq!(report.vulns_map[0].location, "earlier");
    assert_eq!(report.int_cnt, 2);
    assert_eq!(report.total, report.vulns_map.len());
    for (i, v) in report.vulns_map.iter().enumerate() {
        assert_eq!(v.id, i.to_string());
    }
}

#[test]
fn calls_through_a_local_are_resolved_by_data_flow() {
    let mut tcx = program(Operand::Copy(local(1)));
    let helper_ty = fn_def_ty(&mut tcx, 1);
    let entry = tcx.bodies[0].as_mut().unwrap();
    entry.local_decls.push(NUM_TY);
    entry.user_vars.push(false);
    entry.basic_blocks[0].statements.push(assign(4, Rvalue::Use(fn_const(helper_ty, 1)), 0));
    if let Some(Terminator { kind: TerminatorKind::Call { func, .. }, .. }) = &mut entry.basic_blocks[0].terminator {
        *func = Operand::Move(local(4));
    }
    let mut report = Report::new(None);
    let mut t = WholeProgramTraverser::<ExternalNumeric>::new(&tcx);
    t.start(&mut report);
    assert_eq!(report.total, 2);
    assert_eq!(report.vulns_map[1].location, "prog::helper");
}
