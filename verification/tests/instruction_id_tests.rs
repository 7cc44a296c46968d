use vrust::checkers::instruction_id::{get_base_account, parse_field_names, peels_deref_exec, InstructionIdChecker};
use vrust::mir::{
    AdtDef, BasicBlockData, Body, Operand, Place, ProjElem, Rvalue, SpanInfo, Statement, StatementKind, Tcx, TyDesc,
    TyKind,
};
use vrust::reporter::{Report, VulnerabilityType};
use vrust::wpa::WholeProgramTraverser;

// Definitions: 0 prog::entrypoint, 1 AccountInfo. Symbols: 0 "data", 1 "owner".
// Types: 0 u64, 1 AccountInfo, 2 &AccountInfo.
fn place(l: u32, proj: Vec<ProjElem>) -> Place {
    Place { local: l, projection: proj }
}

fn data_of(l: u32) -> Place {
    place(l, vec![ProjElem::Field { field: 0, ty: 0 }])
}

fn reading_program(stmts: Vec<Statement>) -> Tcx {
    let entry = Body {
        def_id: 0,
        arg_count: 1,
        local_decls: vec![0, 1, 2, 1, 0],
        var_debug_info: Vec::new(),
        basic_blocks: vec![BasicBlockData { statements: stmts, terminator: None, predecessors: Vec::new() }],
        rpo: vec![0],
        span: 0,
        is_closure: false,
        user_vars: vec![false; 5],
    };
    Tcx {
        def_paths: vec!["prog::entrypoint".to_string(), "solana_program::account_info::AccountInfo".to_string()],
        symbols: vec!["data".to_string(), "owner".to_string()],
        types: vec![
            TyDesc { kind: TyKind::Numeric, display: "u64".to_string(), layout_size: Some(8) },
            TyDesc { kind: TyKind::Adt { did: 1, substs: Vec::new() }, display: "AccountInfo".to_string(), layout_size: None },
            TyDesc { kind: TyKind::Ref(1), display: "&AccountInfo".to_string(), layout_size: Some(8) },
        ],
        adts: vec![None, Some(AdtDef { field_names: vec![0, 1], field_tys: vec![0, 0], is_struct: true, span: 0 })],
        bodies: vec![Some(entry), None],
        fn_items: vec![0],
        struct_items: Vec::new(),
        spans: vec![SpanInfo {
            diagnostic: "src/lib.rs:2:5: 2:20".to_string(),
            snippet: Some("acc.data".to_string()),
            lo_file: None,
            hi_file: None,
            same_file: true,
            lines: None,
        }],
        unit_ty: 0,
        bool_ty: 0,
        all_traits: Vec::new(),
        trait_impls: Vec::new(),
    }
}

fn assign(to: Place, rv: Rvalue) -> Statement {
    Statement { kind: StatementKind::Assign(to, rv), span: 0 }
}

#[test]
fn dereferences_are_peeled() {
    let p = place(3, vec![ProjElem::Field { field: 0, ty: 0 }, ProjElem::Deref, ProjElem::Deref]);
    assert_eq!(peels_deref_exec(&p), data_of(3));
    assert_eq!(peels_deref_exec(&place(3, Vec::new())), place(3, Vec::new()));
}

#[test]
fn the_base_account_of_a_field() {
    let tcx = reading_program(Vec::new());
    let body = tcx.bodies[0].as_ref().unwrap();
    assert_eq!(get_base_account(&data_of(3), body, &tcx), Some(place(3, Vec::new())));
    assert_eq!(get_base_account(&place(3, Vec::new()), body, &tcx), None);
    assert_eq!(get_base_account(&data_of(4), body, &tcx), None);
}

#[test]
fn field_names_of_a_place() {
    let tcx = reading_program(Vec::new());
    let body = tcx.bodies[0].as_ref().unwrap();
    let fields = parse_field_names(&data_of(3), body, &tcx);
    assert_eq!(fields.len(), 1);
    assert_eq!(fields[0].0, place(3, Vec::new()));
    assert_eq!(fields[0].1, "solana_program::account_info::AccountInfo");
    assert_eq!(fields[0].2, 0);
    assert!(parse_field_names(&place(3, Vec::new()), body, &tcx).is_empty());
}

#[test]
fn unchecked_data_read_of_a_parameter_account_is_reported() {
    let tcx = reading_program(vec![
        assign(place(3, Vec::new()), Rvalue::Use(Operand::Copy(place(1, Vec::new())))),
        assign(place(4, Vec::new()), Rvalue::Use(Operand::Copy(data_of(3)))),
    ]);
    let mut report = Report::new(None);
    WholeProgramTraverser::<InstructionIdChecker>::new(&tcx).start(&mut report);
    assert!(report.total >= 1);
    let v = &report.vulns_map[0];
    assert_eq!(v.category, VulnerabilityType::MissingKeyCheck);
    assert_eq!(v.location, "prog::entrypoint");
    assert_eq!(v.code, "src/lib.rs:2:5: 2:20 \n\tacc.data");
    assert_eq!(report.chk_cnt, 1);
}

#[test]
fn reads_of_other_fields_are_not_reported() {
    let tcx = reading_program(vec![
        assign(place(3, Vec::new()), Rvalue::Use(Operand::Copy(place(1, Vec::new())))),
        assign(place(4, Vec::new()), Rvalue::Use(Operand::Copy(place(3, vec![ProjElem::Field { field: 1, ty: 0 }])))),
    ]);
    let mut report = Report::new(None);
    WholeProgramTraverser::<InstructionIdChecker>::new(&tcx).start(&mut report);
    assert_eq!(report.total, 0);
}
