use vrust::accounts::{find_impls_for, get_accounts, AccountsModel, CtxWrappedAccounts};
use vrust::checkers::owner::{get_try_account_trait, try_accounts_fns};
use vrust::mir::{AdtDef, Body, Tcx, TraitImpl, TyDesc, TyKind};

// Definitions: 0 prog::deposit, 1 anchor_lang::Context, 2 prog::Deposit,
// 3 anchor_lang::Account, 4 prog::Vault, 5 anchor_lang::Accounts (a trait),
// 6 Deposit::try_accounts, 7 other::Accounts (a trait), 8 Deposit::other.
// Symbols: 0 "vault", 1 "payer", 2 "try_accounts", 3 "other".
// Types: 0 u64, 1 Context<_, _, _, _, Deposit>, 2 Deposit, 3 Account<_, Vault>,
// 4 Vault, 5 Context with three arguments.
fn anchor_tcx() -> Tcx {
    let ty = |kind: TyKind| TyDesc { kind, display: String::new(), layout_size: None };
    let body = |def_id: u32, locals: Vec<u32>, arg_count: usize| Body {
        def_id,
        arg_count,
        user_vars: vec![false; locals.len()],
        local_decls: locals,
        var_debug_info: Vec::new(),
        basic_blocks: Vec::new(),
        rpo: Vec::new(),
        span: 0,
        is_closure: false,
    };
    Tcx {
        def_paths: [
            "prog::deposit",
            "anchor_lang::Context",
            "prog::Deposit",
            "anchor_lang::Account",
            "prog::Vault",
            "anchor_lang::Accounts",
            "prog::Deposit::try_accounts",
            "other::Accounts",
            "prog::Deposit::other",
        ]
        .iter()
        .map(|s| s.to_string())
        .collect(),
        symbols: ["vault", "payer", "try_accounts", "other"].iter().map(|s| s.to_string()).collect(),
        types: vec![
            ty(TyKind::Numeric),
            ty(TyKind::Adt { did: 1, substs: vec![0, 0, 0, 0, 2] }),
            ty(TyKind::Adt { did: 2, substs: Vec::new() }),
            ty(TyKind::Adt { did: 3, substs: vec![0, 4] }),
            ty(TyKind::Adt { did: 4, substs: Vec::new() }),
            ty(TyKind::Adt { did: 1, substs: vec![0, 0, 2] }),
        ],
        adts: vec![
            None,
            None,
            Some(AdtDef { field_names: vec![0, 1], field_tys: vec![3, 0], is_struct: true, span: 0 }),
            None,
            Some(AdtDef { field_names: vec![1], field_tys: vec![0], is_struct: true, span: 0 }),
        ],
        bodies: vec![
            Some(body(0, vec![0, 1], 1)),
            None,
            None,
            None,
            None,
            None,
            Some(body(6, vec![0], 0)),
            None,
            Some(body(8, vec![0], 0)),
        ],
        fn_items: vec![0, 6, 8],
        struct_items: vec![2, 4],
        spans: Vec::new(),
        unit_ty: 0,
        bool_ty: 0,
        all_traits: vec![7, 5],
        trait_impls: vec![
            TraitImpl { trait_id: 7, self_adt: Some(2), items: vec![(2, 8)] },
            TraitImpl { trait_id: 5, self_adt: Some(4), items: vec![(2, 8)] },
            TraitImpl { trait_id: 5, self_adt: Some(2), items: vec![(3, 8), (2, 6)] },
        ],
    }
}

#[test]
fn accounts_come_from_the_context_parameter() {
    let tcx = anchor_tcx();
    let accounts = get_accounts(&tcx, tcx.bodies[0].as_ref().unwrap());
    assert_eq!(accounts.len(), 1);
    assert_eq!(accounts[0].adt_def, 2);
    assert_eq!(accounts[0].fields, vec![(3, 0, Some(4)), (0, 1, None)]);
}

#[test]
fn no_accounts_without_a_context() {
    let mut tcx = anchor_tcx();
    let deposit = tcx.bodies[0].as_ref().unwrap();
    let mut plain = Body { local_decls: vec![0, 0], ..deposit.clone() };
    assert!(get_accounts(&tcx, &plain).is_empty());
    plain.local_decls = vec![0, 5];
    assert!(get_accounts(&tcx, &plain).is_empty());
    plain.local_decls = vec![0, 1];
    plain.arg_count = 0;
    assert!(get_accounts(&tcx, &plain).is_empty());
    tcx.def_paths[1] = "anchor_lang::Ctx".to_string();
    assert!(get_accounts(&tcx, tcx.bodies[0].as_ref().unwrap()).is_empty());
}

#[test]
fn the_accounts_trait_is_found_by_path() {
    let mut tcx = anchor_tcx();
    assert_eq!(get_try_account_trait(&tcx), Some(5));
    tcx.all_traits = vec![7];
    assert_eq!(get_try_account_trait(&tcx), None);
}

#[test]
fn try_accounts_functions_of_an_implementation() {
    let tcx = anchor_tcx();
    assert_eq!(try_accounts_fns(&tcx, 5, 2), vec![6]);
    assert_eq!(try_accounts_fns(&tcx, 5, 4), vec![8]);
    assert_eq!(try_accounts_fns(&tcx, 7, 4), Vec::<u32>::new());
    assert_eq!(find_impls_for(&tcx, 2), vec![6]);
    let mut no_body = anchor_tcx();
    no_body.bodies[6] = None;
    assert!(find_impls_for(&no_body, 2).is_empty());
}

#[test]
fn a_model_starts_without_roles() {
    let m = AccountsModel::build(&anchor_tcx(), CtxWrappedAccounts { adt_def: 2, fields: Vec::new() });
    assert_eq!(m.g.node_count(), 0);
}
