use vrust::assertions::{
    check_account_ownership, check_is_signer_check, check_key_calls, collect_all_assertions,
    trim_newline, AssertionOperands, KeyStmt,
};
use vrust::mir::{
    BasicBlockData, Body, Constant, Operand, Place, Tcx, Terminator, TerminatorKind, TyDesc, TyKind,
};
use vrust::visit::DefSource;

// Symbols: 0 "authority", 1 "is_signer", 2 "vault", 3 "owner", 4 "payer".
// Definitions: 0 prog::f, 1 assert_failed, 2 PartialEq::eq, 3 panic, 4 borrow_mut, 5 other, 6 prog::g.
// Types: 0 u64, then one fn type per callee definition 1..=5 (type k+... below).
fn tcx() -> Tcx {
    let fn_ty = |d: u32| TyDesc { kind: TyKind::FnDef(d), display: "fn".to_string(), layout_size: None };
    Tcx {
        def_paths: [
            "prog::f",
            "core::panicking::assert_failed",
            "std::cmp::PartialEq::eq",
            "core::panicking::panic",
            "std::cell::RefCell::<T>::borrow_mut",
            "prog::other",
            "prog::g",
        ]
        .iter()
        .map(|s| s.to_string())
        .collect(),
        symbols: ["authority", "is_signer", "vault", "owner", "payer"].iter().map(|s| s.to_string()).collect(),
        types: vec![
            TyDesc { kind: TyKind::Numeric, display: "u64".to_string(), layout_size: Some(8) },
            fn_ty(1),
            fn_ty(2),
            fn_ty(3),
            fn_ty(4),
            fn_ty(5),
        ],
        adts: Vec::new(),
        bodies: Vec::new(),
        fn_items: Vec::new(),
        struct_items: Vec::new(),
        spans: Vec::new(),
        unit_ty: 0,
        bool_ty: 0,
        all_traits: Vec::new(),
        trait_impls: Vec::new(),
    }
}

fn callee(def: u32) -> Operand {
    Operand::Constant(Constant { ty: def, literal: 0, display: "f".to_string(), debug: "f".to_string(), resolved: Some(def) })
}

fn arg(l: u32) -> Operand {
    Operand::Copy(Place { local: l, projection: Vec::new() })
}

fn konst() -> Constant {
    Constant { ty: 0, literal: 1, display: "1".to_string(), debug: "1".to_string(), resolved: None }
}

fn var(name: u32, fields: Vec<u32>) -> DefSource {
    DefSource::Var { name, fields }
}

#[test]
fn trailing_newlines_are_trimmed() {
    let mut s = "line\r\n".to_string();
    trim_newline(&mut s);
    assert_eq!(s, "line");
    let mut s = "a\n\r\n\r".to_string();
    trim_newline(&mut s);
    assert_eq!(s, "a");
    let mut s = "keep\nmiddle".to_string();
    trim_newline(&mut s);
    assert_eq!(s, "keep\nmiddle");
    let mut s = "\n\n".to_string();
    trim_newline(&mut s);
    assert_eq!(s, "");
    // Trimming twice is trimming once.
    let mut t = "x\r\n".to_string();
    trim_newline(&mut t);
    let once = t.clone();
    trim_newline(&mut t);
    assert_eq!(t, once);
}

#[test]
fn key_calls_are_recognised() {
    let tcx = tcx();
    let mut stmts = Vec::new();
    check_key_calls(&tcx, &callee(1), &vec![arg(1), arg(2), arg(3)], &None, &mut stmts);
    check_key_calls(&tcx, &callee(2), &vec![arg(4), arg(5)], &None, &mut stmts);
    check_key_calls(&tcx, &callee(3), &vec![arg(6)], &None, &mut stmts);
    check_key_calls(&tcx, &callee(4), &vec![arg(7)], &None, &mut stmts);
    check_key_calls(&tcx, &callee(4), &vec![arg(7), arg(8)], &None, &mut stmts);
    check_key_calls(&tcx, &callee(5), &vec![arg(9)], &None, &mut stmts);
    check_key_calls(&tcx, &arg(1), &vec![arg(9)], &None, &mut stmts);
    assert_eq!(stmts.len(), 4);
    match &stmts[0] {
        KeyStmt::AssertionStmt { assertion_call_name, op_arg_index, elements, args } => {
            assert_eq!(*assertion_call_name, "core::panicking::assert_failed");
            assert_eq!(*op_arg_index, 0);
            assert_eq!(*elements, AssertionOperands::Binary(1, 2));
            assert_eq!(args.len(), 3);
        },
        _ => panic!("assert_failed is an assertion"),
    }
    assert!(matches!(&stmts[1], KeyStmt::AssertIFStmt { elements: AssertionOperands::Binary(0, 1), .. }));
    assert!(matches!(&stmts[2], KeyStmt::AssertionStmt { elements: AssertionOperands::Unary(0), .. }));
    assert!(matches!(&stmts[3], KeyStmt::BorrowMutStmt { .. }));
    for s in &stmts {
        assert!(s.well_formed());
    }
    assert!(stmts[0].get_op().is_some());
    assert!(stmts[1].get_op().is_none());
    assert_eq!(stmts[0].get_elements().len(), 2);
    assert_eq!(stmts[2].get_elements().len(), 1);
    assert_eq!(stmts[3].get_elements().len(), 1);
}

#[test]
fn malformed_key_statements() {
    let short = KeyStmt::AssertionStmt {
        assertion_call_name: "core::panicking::assert_failed",
        op_arg_index: 0,
        elements: AssertionOperands::Binary(1, 2),
        args: vec![arg(1)],
    };
    assert!(!short.well_formed());
    let no_op = KeyStmt::AssertionStmt {
        assertion_call_name: "core::panicking::assert_failed",
        op_arg_index: 3,
        elements: AssertionOperands::Unary(0),
        args: vec![arg(1)],
    };
    assert!(!no_op.well_formed());
}

#[test]
fn ownership_checks_compare_the_owner_field() {
    let tcx = tcx();
    let assertions = vec![(konst(), vec![var(2, vec![3]), DefSource::Const(konst())])];
    assert!(check_account_ownership(&tcx, 2, &assertions));
    assert!(!check_account_ownership(&tcx, 0, &assertions));
    let deeper = vec![(konst(), vec![var(2, vec![3, 3])])];
    assert!(!check_account_ownership(&tcx, 2, &deeper));
    assert!(!check_account_ownership(&tcx, 2, &[]));
}

#[test]
fn signer_checks_test_is_signer_of_a_signer_variable() {
    let tcx = tcx();
    assert!(check_is_signer_check(&tcx, &[(konst(), vec![var(0, vec![1])])]));
    assert!(!check_is_signer_check(&tcx, &[(konst(), vec![var(4, vec![1])])]));
    assert!(!check_is_signer_check(&tcx, &[(konst(), vec![var(0, vec![3])])]));
    assert!(!check_is_signer_check(&tcx, &[]));
}

#[test]
fn every_function_with_a_body_is_summarised() {
    let mut tcx = tcx();
    let body = Body {
        def_id: 0,
        arg_count: 0,
        local_decls: vec![0, 0],
        var_debug_info: Vec::new(),
        basic_blocks: vec![BasicBlockData {
            statements: Vec::new(),
            terminator: Some(Terminator {
                kind: TerminatorKind::Call { func: callee(5), args: vec![arg(1)], destination: None, fn_span: 0 },
                span: 0,
            }),
            predecessors: Vec::new(),
        }],
        rpo: vec![0],
        span: 0,
        is_closure: false,
        user_vars: vec![false, false],
    };
    tcx.bodies = vec![Some(body), None, None, None, None, None, None];
    tcx.fn_items = vec![6, 0, 5];
    let summaries = collect_all_assertions(&tcx);
    assert_eq!(summaries.len(), 1);
    assert_eq!(summaries[0].def_id, 0);
    assert!(!summaries[0].is_signer_checked);
    assert!(!summaries[0].has_signer_variable);
    assert_eq!(summaries[0].is_signer_var, "Unknown");
    assert!(summaries[0].unchecked_owners.is_empty());
}
