use vrust::mir::{
    AdtDef, BasicBlockData, Body, Constant, Operand, Place, SpanInfo, Tcx, Terminator,
    TerminatorKind, TyDesc, TyKind,
};
use vrust::reporter::{Report, VulnerabilityType};
use vrust::source_info::{get_diagnostic, get_source_file, get_source_lines, get_type_defs_src};
use vrust::ty_confusion::{
    check_confusion_types, check_deserializations, check_uses, find_confusion_types,
    get_mod_struct_types, is_layout_compatible, keep_with_fields, StructDefLayout,
};

// Definitions: 0 prog::process, 1 deserialize, 2 prog::A, 3 prog::B, 4 prog::C,
// 5 Result, 6 prog::Empty, 7 prog::E (an enum).
// Types: 0 u64 (8 bytes), 1 u8 (1 byte), 2 A, 3 Result<A>, 4 fn deserialize, 5 u32 (4 bytes).
fn crate_with_structs() -> Tcx {
    let span = |d: &str, s: &str| SpanInfo {
        diagnostic: d.to_string(),
        snippet: Some(s.to_string()),
        lo_file: Some("src/state.rs".to_string()),
        hi_file: Some("src/state.rs".to_string()),
        same_file: true,
        lines: None,
    };
    let ty = |kind: TyKind, display: &str, size: Option<u64>| TyDesc { kind, display: display.to_string(), layout_size: size };
    let adt = |tys: Vec<u32>, is_struct: bool, span: u32| {
        Some(AdtDef { field_names: (0..tys.len() as u32).collect(), field_tys: tys, is_struct, span })
    };
    let deserialize = Terminator {
        kind: TerminatorKind::Call {
            func: Operand::Constant(Constant {
                ty: 4,
                literal: 0,
                display: "deserialize".to_string(),
                debug: "deserialize".to_string(),
                resolved: Some(1),
            }),
            args: vec![Operand::Move(Place { local: 1, projection: Vec::new() })],
            destination: Some((Place { local: 2, projection: Vec::new() }, 1)),
            fn_span: 0,
        },
        span: 0,
    };
    let process = Body {
        def_id: 0,
        arg_count: 1,
        local_decls: vec![0, 0, 3],
        var_debug_info: Vec::new(),
        basic_blocks: vec![
            BasicBlockData { statements: Vec::new(), terminator: Some(deserialize), predecessors: Vec::new() },
            BasicBlockData { statements: Vec::new(), terminator: None, predecessors: vec![0] },
        ],
        rpo: vec![0, 1],
        span: 0,
        is_closure: false,
        user_vars: vec![false, false, false],
    };
    Tcx {
        def_paths: [
            "prog::process",
            "borsh::BorshDeserialize::deserialize",
            "prog::A",
            "prog::B",
            "prog::C",
            "std::result::Result",
            "prog::Empty",
            "prog::E",
        ]
        .iter()
        .map(|s| s.to_string())
        .collect(),
        symbols: Vec::new(),
        types: vec![
            ty(TyKind::Numeric, "u64", Some(8)),
            ty(TyKind::Numeric, "u8", Some(1)),
            ty(TyKind::Adt { did: 2, substs: Vec::new() }, "A", Some(16)),
            ty(TyKind::Adt { did: 5, substs: vec![2] }, "Result<A>", None),
            ty(TyKind::FnDef(1), "fn", None),
            ty(TyKind::Numeric, "u32", Some(4)),
        ],
        adts: vec![
            None,
            None,
            adt(vec![0, 0], true, 1),
            adt(vec![0, 0, 1], true, 2),
            adt(vec![1], true, 3),
            None,
            adt(Vec::new(), true, 0),
            adt(vec![0, 0], false, 0),
        ],
        bodies: vec![Some(process), None, None, None, None, None, None, None],
        fn_items: vec![0],
        struct_items: vec![2, 3, 4, 6, 7],
        spans: vec![
            span("src/lib.rs:1:1: 5:2", "fn process() {..}"),
            span("src/state.rs:1:1: 4:2", "struct A { x: u64, y: u64 }"),
            span("src/state.rs:6:1: 10:2", "struct B { x: u64, y: u64, z: u8 }"),
            span("src/state.rs:12:1: 14:2", "struct C { b: u8 }"),
        ],
        unit_ty: 0,
        bool_ty: 0,
        all_traits: Vec::new(),
        trait_impls: Vec::new(),
    }
}

fn layout(def: u32, tys: Vec<u32>, span: u32) -> StructDefLayout {
    StructDefLayout { struct_def: def, layout: tys, span }
}

#[test]
fn struct_types_are_all_structs() {
    let tcx = crate_with_structs();
    let all = get_mod_struct_types(&tcx);
    assert_eq!(all, vec![(2, 1), (3, 2), (4, 3), (6, 0)]);
    assert_eq!(keep_with_fields(&tcx, &all), vec![(2, 1), (3, 2), (4, 3)]);
}

#[test]
fn structs_are_grouped_by_field_count() {
    let tcx = crate_with_structs();
    let structs = keep_with_fields(&tcx, &get_mod_struct_types(&tcx));
    let groups = find_confusion_types(&tcx, &structs);
    let keys: Vec<usize> = groups.keys().copied().collect();
    assert_eq!(keys, vec![1, 2, 3]);
    assert_eq!(groups[&1][0].struct_def, 4);
    assert_eq!(groups[&2][0].struct_def, 2);
    assert_eq!(groups[&2][0].layout, vec![0, 0]);
    assert_eq!(groups[&3][0].struct_def, 3);
    assert!(find_confusion_types(&tcx, &[]).is_empty());
    let two = find_confusion_types(&tcx, &[(2, 1), (2, 1)]);
    assert_eq!(two.len(), 1);
    assert_eq!(two[&2].len(), 2);
}

#[test]
fn layouts_agree_on_leading_field_sizes() {
    let tcx = crate_with_structs();
    assert!(is_layout_compatible(&tcx, &layout(2, vec![0, 0], 1), &layout(3, vec![0, 0, 1], 2)));
    assert!(!is_layout_compatible(&tcx, &layout(4, vec![1], 3), &layout(2, vec![0, 0], 1)));
    assert!(!is_layout_compatible(&tcx, &layout(9, vec![5], 0), &layout(2, vec![0, 0], 1)));
    // A field type of unknown size agrees with anything.
    assert!(is_layout_compatible(&tcx, &layout(9, vec![99], 0), &layout(2, vec![0, 0], 1)));
    assert!(is_layout_compatible(&tcx, &layout(9, Vec::new(), 0), &layout(2, vec![0], 1)));
}

#[test]
fn deserializations_are_recorded() {
    let tcx = crate_with_structs();
    let body = tcx.bodies[0].as_ref().unwrap();
    let term = body.basic_blocks[0].terminator.as_ref().unwrap();
    let mut found = Vec::new();
    if let TerminatorKind::Call { func, args, destination, .. } = &term.kind {
        check_deserializations(&tcx, func, args, destination, &mut found);
        assert_eq!(found.len(), 1);
        assert_eq!(found[0].dest.local, 2);
        check_deserializations(&tcx, func, &Vec::new(), destination, &mut found);
        check_deserializations(&tcx, func, args, &None, &mut found);
        assert_eq!(found.len(), 1);
    } else {
        panic!("the block ends in a call");
    }
}

#[test]
fn uses_are_the_functions_that_deserialize_into_the_structs() {
    let tcx = crate_with_structs();
    let a = layout(2, vec![0, 0], 1);
    let b = layout(3, vec![0, 0, 1], 2);
    assert_eq!(check_uses(&tcx, &[&a, &b]), vec![0]);
    assert_eq!(check_uses(&tcx, &[&b]), Vec::<u32>::new());
}

#[test]
fn type_definitions_source() {
    let tcx = crate_with_structs();
    let a = layout(2, vec![0, 0], 1);
    let b = layout(3, vec![0, 0, 1], 2);
    let missing = layout(3, vec![0, 0, 1], 40);
    assert_eq!(
        get_type_defs_src(&tcx, &[&a, &missing, &b]),
        "src/state.rs:1:1: 4:2 \n\tstruct A { x: u64, y: u64 }\nsrc/state.rs:6:1: 10:2 \n\tstruct B { x: u64, y: u64, z: u8 }"
    );
    assert_eq!(get_source_lines(&tcx, 3), Some("src/state.rs:12:1: 14:2 \n\tstruct C { b: u8 }".to_string()));
    assert_eq!(get_source_lines(&tcx, 30), None);
    assert_eq!(get_source_file(&tcx, 1), Some("src/state.rs".to_string()));
    assert_eq!(get_diagnostic(&tcx, 2), "src/state.rs:6:1: 10:2");
    assert_eq!(get_diagnostic(&tcx, 30), "");
}

#[test]
fn confusable_structs_deserialized_are_reported() {
    let tcx = crate_with_structs();
    let mut report = Report::new(None);
    check_confusion_types(&tcx, &mut report);
    assert_eq!(report.total, 1);
    assert_eq!(report.typ_cnt, 1);
    let v = &report.vulns_map[0];
    assert_eq!(v.category, VulnerabilityType::TypeConfusion);
    assert_eq!(v.location, "prog::process");
    assert_eq!(
        v.code,
        "src/state.rs:1:1: 4:2 \n\tstruct A { x: u64, y: u64 }\nsrc/state.rs:6:1: 10:2 \n\tstruct B { x: u64, y: u64, z: u8 }"
    );
    // The positional arguments land as the analysis passes them: the status
    // text in the call stack field and the link text in the status field.
    assert_eq!(v.context, "");
    assert_eq!(v.callstack, "UnResolved");
    assert_eq!(v.status, "GitHub Link to be added.");
    assert_eq!(v.link, "");
}

#[test]
fn no_finding_without_a_deserialization() {
    let mut tcx = crate_with_structs();
    tcx.fn_items = Vec::new();
    let mut report = Report::new(None);
    check_confusion_types(&tcx, &mut report);
    assert_eq!(report.total, 0);
}
