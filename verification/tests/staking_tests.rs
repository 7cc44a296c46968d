use vrust::checkers::staking_validator::StakingValidator;
use vrust::mir::{
    BasicBlockData, BinOp, Body, Constant, Operand, Place, Rvalue, SpanInfo, Statement, StatementKind, Tcx,
    Terminator, TerminatorKind, TyDesc, TyKind,
};
use vrust::reporter::{Report, VulnerabilityType};
use vrust::wpa::WholeProgramTraverser;

// Definitions: 0 prog::entrypoint, 1 delegate_stake, 2 Pubkey.
// Types: 0 u64, 1 fn delegate_stake, 2 Pubkey, 3 bool.
fn staking_program(compare_first: bool) -> Tcx {
    let place = |l: u32| Place { local: l, projection: Vec::new() };
    let konst = Operand::Constant(Constant { ty: 0, literal: 0, display: "0".to_string(), debug: "0".to_string(), resolved: None });
    let call = Terminator {
        kind: TerminatorKind::Call {
            func: Operand::Constant(Constant {
                ty: 1,
                literal: 1,
                display: "delegate_stake".to_string(),
                debug: "delegate_stake".to_string(),
                resolved: Some(1),
            }),
            args: vec![konst.clone(), konst, Operand::Copy(place(3))],
            destination: Some((place(0), 1)),
            fn_span: 1,
        },
        span: 1,
    };
    let statements = if compare_first {
        vec![Statement {
            kind: StatementKind::Assign(
                place(4),
                Rvalue::BinaryOp(BinOp::Eq, Operand::Copy(place(3)), Operand::Copy(place(2))),
            ),
            span: 1,
        }]
    } else {
        Vec::new()
    };
    let entry = Body {
        def_id: 0,
        arg_count: 0,
        local_decls: vec![0, 0, 2, 2, 3],
        var_debug_info: Vec::new(),
        basic_blocks: vec![BasicBlockData { statements, terminator: Some(call), predecessors: Vec::new() }],
        rpo: vec![0],
        span: 0,
        is_closure: false,
        user_vars: vec![false; 5],
    };
    let span = |d: &str, f: &str| SpanInfo {
        diagnostic: d.to_string(),
        snippet: None,
        lo_file: Some(f.to_string()),
        hi_file: Some(f.to_string()),
        same_file: true,
        lines: None,
    };
    Tcx {
        def_paths: vec![
            "prog::entrypoint".to_string(),
            "anchor_lang::solana_program::stake::instruction::delegate_stake".to_string(),
            "anchor_lang::prelude::Pubkey".to_string(),
        ],
        symbols: Vec::new(),
        types: vec![
            TyDesc { kind: TyKind::Numeric, display: "u64".to_string(), layout_size: Some(8) },
            TyDesc { kind: TyKind::FnDef(1), display: "fn".to_string(), layout_size: None },
            TyDesc { kind: TyKind::Adt { did: 2, substs: Vec::new() }, display: "Pubkey".to_string(), layout_size: Some(32) },
            TyDesc { kind: TyKind::Other, display: "bool".to_string(), layout_size: Some(1) },
        ],
        adts: Vec::new(),
        bodies: vec![Some(entry), None, None],
        fn_items: vec![0],
        struct_items: Vec::new(),
        spans: vec![span("src/lib.rs:1:1: 9:2", "src/lib.rs"), span("src/stake.rs:3:5: 3:40", "src/stake.rs")],
        unit_ty: 3,
        bool_ty: 3,
        all_traits: Vec::new(),
        trait_impls: Vec::new(),
    }
}

#[test]
fn unchecked_vote_account_is_reported() {
    let tcx = staking_program(false);
    let mut report = Report::new(None);
    WholeProgramTraverser::<StakingValidator>::new(&tcx).start(&mut report);
    assert_eq!(report.total, 1);
    let v = &report.vulns_map[0];
    assert_eq!(v.category, VulnerabilityType::StakingValidator);
    assert_eq!(v.location, "prog::entrypoint");
    assert_eq!(v.code, "src/stake.rs");
    assert_eq!(v.status, "GitHub Link to be added.");
}

#[test]
fn compared_vote_account_is_not_reported() {
    let tcx = staking_program(true);
    let mut report = Report::new(None);
    WholeProgramTraverser::<StakingValidator>::new(&tcx).start(&mut report);
    assert_eq!(report.total, 0);
}
