use vrust::checkers::owner::OwnerCheck;
use vrust::mir::{
    BasicBlockData, Body, Constant, Operand, Place, SpanInfo, Tcx, Terminator, TerminatorKind, TraitImpl, TyDesc,
    TyKind,
};
use vrust::reporter::{Report, VulnerabilityType};
use vrust::wpa::WholeProgramTraverser;

// Definitions: 0 prog::entrypoint, 1 prog::deposit, 2 anchor_lang::context::Context,
// 3 prog::Deposit, 4 anchor_lang::Accounts, 5 Deposit::try_accounts.
// Symbols: 0 "try_accounts".
// Types: 0 u64, 1 Context<.., Deposit>, 2 Deposit, 3 fn deposit.
fn handler_program(try_accounts_known: bool) -> Tcx {
    let body = |def_id: u32, locals: Vec<u32>, arg_count: usize, terminator: Option<Terminator>| Body {
        def_id,
        arg_count,
        user_vars: vec![false; locals.len()],
        local_decls: locals,
        var_debug_info: Vec::new(),
        basic_blocks: vec![BasicBlockData { statements: Vec::new(), terminator, predecessors: Vec::new() }],
        rpo: vec![0],
        span: 0,
        is_closure: false,
    };
    let call = Terminator {
        kind: TerminatorKind::Call {
            func: Operand::Constant(Constant {
                ty: 3,
                literal: 0,
                display: "deposit".to_string(),
                debug: "deposit".to_string(),
                resolved: Some(1),
            }),
            args: vec![Operand::Move(Place { local: 1, projection: Vec::new() })],
            destination: Some((Place { local: 0, projection: Vec::new() }, 1)),
            fn_span: 0,
        },
        span: 0,
    };
    Tcx {
        def_paths: [
            "prog::entrypoint",
            "prog::deposit",
            "anchor_lang::context::Context",
            "prog::Deposit",
            "anchor_lang::Accounts",
            "prog::Deposit::try_accounts",
        ]
        .iter()
        .map(|s| s.to_string())
        .collect(),
        symbols: vec!["try_accounts".to_string()],
        types: vec![
            TyDesc { kind: TyKind::Numeric, display: "u64".to_string(), layout_size: Some(8) },
            TyDesc { kind: TyKind::Adt { did: 2, substs: vec![0, 2] }, display: "Context".to_string(), layout_size: None },
            TyDesc { kind: TyKind::Adt { did: 3, substs: Vec::new() }, display: "Deposit".to_string(), layout_size: None },
            TyDesc { kind: TyKind::FnDef(1), display: "fn".to_string(), layout_size: None },
        ],
        adts: Vec::new(),
        bodies: vec![
            Some(body(0, vec![0, 1], 0, Some(call))),
            Some(body(1, vec![0, 1], 1, None)),
            None,
            None,
            None,
            Some(body(5, vec![0], 0, None)),
        ],
        fn_items: vec![0, 1, 5],
        struct_items: Vec::new(),
        spans: vec![SpanInfo {
            diagnostic: "src/lib.rs:10:1: 20:2".to_string(),
            snippet: Some("fn deposit(ctx: Context<Deposit>)".to_string()),
            lo_file: Some("src/lib.rs".to_string()),
            hi_file: Some("src/lib.rs".to_string()),
            same_file: true,
            lines: None,
        }],
        unit_ty: 0,
        bool_ty: 0,
        all_traits: if try_accounts_known { vec![4] } else { Vec::new() },
        trait_impls: vec![TraitImpl { trait_id: 4, self_adt: Some(3), items: vec![(0, 5)] }],
    }
}

#[test]
fn handler_without_owner_comparison_is_reported() {
    let tcx = handler_program(false);
    let mut report = Report::new(None);
    WholeProgramTraverser::<OwnerCheck>::new(&tcx).start(&mut report);
    assert_eq!(report.total, 1);
    let v = &report.vulns_map[0];
    assert_eq!(v.category, VulnerabilityType::MissingOwnerCheck);
    assert_eq!(v.location, "prog::deposit");
    assert_eq!(v.code, "src/lib.rs");
    assert_eq!(v.context, "src/lib.rs:10:1: 20:2 \n\tfn deposit(ctx: Context<Deposit>)");
}

#[test]
fn unchecked_try_accounts_does_not_excuse_the_handler() {
    // The accounts type's try_accounts has no state here (it was never
    // walked), so it shows no owner comparison.
    let tcx = handler_program(true);
    let mut report = Report::new(None);
    WholeProgramTraverser::<OwnerCheck>::new(&tcx).start(&mut report);
    assert_eq!(report.total, 1);
}
