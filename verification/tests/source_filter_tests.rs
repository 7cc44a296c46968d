use vrust::checkers::owner::OwnerCheck;
use vrust::dd::{DdNode, HeuristicFilter};
use vrust::mir::{Body, Place, SpanInfo, SpanLines, Tcx, TyDesc, TyKind, VarDebugInfo};
use vrust::source_info::{get_context_source_lines, get_source_file};
use vrust::wpa::{StateMachine, StateTransitor};

fn tcx_with_spans(spans: Vec<SpanInfo>) -> Tcx {
    Tcx {
        def_paths: vec!["prog::f".to_string()],
        symbols: vec!["amount".to_string()],
        types: vec![TyDesc { kind: TyKind::Numeric, display: "u64".to_string(), layout_size: Some(8) }],
        adts: vec![None],
        bodies: vec![None],
        fn_items: Vec::new(),
        struct_items: Vec::new(),
        spans,
        unit_ty: 0,
        bool_ty: 0,
        all_traits: Vec::new(),
        trait_impls: Vec::new(),
    }
}

fn span_in(lo: &str, hi: &str, lines: Option<SpanLines>) -> SpanInfo {
    SpanInfo {
        diagnostic: "src/a.rs:3:1: 3:9".to_string(),
        snippet: None,
        lo_file: Some(lo.to_string()),
        hi_file: Some(hi.to_string()),
        same_file: lo == hi,
        lines,
    }
}

fn five_lines(lo_line: usize, hi_line: usize) -> SpanLines {
    SpanLines { lo_line, hi_line, file_lines: ["l0", "l1", "l2", "l3", "l4"].iter().map(|s| s.to_string()).collect() }
}

#[test]
fn source_file_of_two_files_joins_them_with_a_colon() {
    let tcx = tcx_with_spans(vec![span_in("src/a.rs", "src/b.rs", None), span_in("src/a.rs", "src/a.rs", None)]);
    assert_eq!(get_source_file(&tcx, 0), Some("src/a.rs:src/b.rs".to_string()));
    assert_eq!(get_source_file(&tcx, 1), Some("src/a.rs".to_string()));
    assert_eq!(get_source_file(&tcx, 2), None);
}

#[test]
fn context_lines_are_widened_by_the_margin_and_clamped() {
    let tcx = tcx_with_spans(vec![
        span_in("src/a.rs", "src/a.rs", Some(five_lines(2, 2))),
        span_in("src/a.rs", "src/a.rs", Some(five_lines(1, 3))),
        span_in("src/a.rs", "src/a.rs", None),
    ]);
    assert_eq!(get_context_source_lines(&tcx, 0, 0), Some("l2\n".to_string()));
    assert_eq!(get_context_source_lines(&tcx, 0, 1), Some("l1\nl2\nl3\n".to_string()));
    assert_eq!(get_context_source_lines(&tcx, 1, 5), Some("l0\nl1\nl2\nl3\nl4\n".to_string()));
    assert_eq!(get_context_source_lines(&tcx, 2, 1), None);
    assert_eq!(get_context_source_lines(&tcx, 7, 1), None);
}

#[test]
fn type_and_predicate_filters_pass_over_variables() {
    let tcx = tcx_with_spans(Vec::new());
    let dbg = vec![VarDebugInfo { name: 0, place: Some(Place { local: 1, projection: Vec::new() }), span: 0 }];
    let user_var = DdNode::LocalDecl { local: 1, ty: 0, dbg_info: 1, arg_count: 1, def_id: 0 };
    let temp = DdNode::LocalDecl { local: 2, ty: 0, dbg_info: 0, arg_count: 1, def_id: 0 };
    assert!(!HeuristicFilter::TypeFilter(vec!["u64".to_string()]).filter(&user_var, &dbg, &tcx));
    assert!(HeuristicFilter::TypeFilter(vec!["u8".to_string()]).filter(&user_var, &dbg, &tcx));
    assert!(HeuristicFilter::TypeFilter(vec!["u64".to_string()]).filter(&temp, &dbg, &tcx));
    assert!(!HeuristicFilter::PredicateFilter(true).filter(&user_var, &dbg, &tcx));
    assert!(HeuristicFilter::PredicateFilter(false).filter(&user_var, &dbg, &tcx));
    assert!(!HeuristicFilter::NameFilter(vec!["amount".to_string()]).filter(&user_var, &dbg, &tcx));
    assert!(HeuristicFilter::NoFilter.filter(&user_var, &dbg, &tcx));
}

fn account_slice_tcx() -> Tcx {
    let mut tcx = tcx_with_spans(Vec::new());
    tcx.def_paths = vec![
        "prog::process".to_string(),
        "solana_program::account_info::AccountInfo".to_string(),
        "anchor_lang::Account".to_string(),
    ];
    tcx.adts = vec![None, None, None];
    tcx.bodies = vec![None, None, None];
    let ty = |kind: TyKind| TyDesc { kind, display: String::new(), layout_size: None };
    tcx.types = vec![
        ty(TyKind::Numeric),
        ty(TyKind::Adt { did: 1, substs: Vec::new() }),
        ty(TyKind::Slice(1)),
        ty(TyKind::Ref(2)),
        ty(TyKind::Adt { did: 2, substs: Vec::new() }),
        ty(TyKind::Slice(4)),
        ty(TyKind::Ref(5)),
    ];
    tcx
}

fn process_body(param_ty: u32) -> Body {
    Body {
        def_id: 0,
        arg_count: 1,
        local_decls: vec![0, param_ty],
        var_debug_info: Vec::new(),
        basic_blocks: Vec::new(),
        rpo: Vec::new(),
        span: 0,
        is_closure: false,
        user_vars: vec![false, true],
    }
}

#[test]
fn a_slice_of_account_infos_makes_a_function_interesting() {
    let tcx = account_slice_tcx();
    let sm: StateMachine<OwnerCheck> = StateMachine::new();
    assert!(<OwnerCheck as StateTransitor>::is_interesting_fn(&process_body(3), &tcx, &sm));
    assert!(!<OwnerCheck as StateTransitor>::is_interesting_fn(&process_body(6), &tcx, &sm));
    assert!(!<OwnerCheck as StateTransitor>::is_interesting_fn(&process_body(0), &tcx, &sm));
}
