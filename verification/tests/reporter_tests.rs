use vrust::mir::{Body, SpanInfo, Tcx};
use vrust::reporter::{usize_to_string, Report, VulnerabilityType};

fn empty_tcx() -> Tcx {
    Tcx {
        def_paths: Vec::new(),
        symbols: Vec::new(),
        types: Vec::new(),
        adts: Vec::new(),
        bodies: Vec::new(),
        fn_items: Vec::new(),
        struct_items: Vec::new(),
        spans: Vec::new(),
        unit_ty: 0,
        bool_ty: 0,
        all_traits: Vec::new(),
        trait_impls: Vec::new(),
    }
}

fn body_at(def_id: u32, span: u32) -> Body {
    Body {
        def_id,
        arg_count: 0,
        local_decls: Vec::new(),
        var_debug_info: Vec::new(),
        basic_blocks: Vec::new(),
        rpo: Vec::new(),
        span,
        is_closure: false,
        user_vars: Vec::new(),
    }
}

fn span(diag: &str) -> SpanInfo {
    SpanInfo { diagnostic: diag.to_string(), snippet: None, lo_file: None, hi_file: None, same_file: false, lines: None }
}

fn record(r: &mut Report, category: VulnerabilityType, code: &str) {
    r.new_bug(
        category,
        "High".to_string(),
        "f".to_string(),
        code.to_string(),
        "ctx".to_string(),
        "stack".to_string(),
        "UnResolved".to_string(),
        None,
        Some("message".to_string()),
        None,
    );
}

#[test]
fn decimal_numbers() {
    assert_eq!(usize_to_string(0), "0");
    assert_eq!(usize_to_string(7), "7");
    assert_eq!(usize_to_string(10), "10");
    assert_eq!(usize_to_string(1234567), "1234567");
}

#[test]
fn new_report_is_empty() {
    let r = Report::new(Some("2024-01-01".to_string()));
    assert_eq!(r.id, Some("VRust".to_string()));
    assert_eq!(r.time, Some("2024-01-01".to_string()));
    assert_eq!(r.total, 0);
    assert!(r.vulns_map.is_empty());
    assert!(!r.get_filtered());
    assert!(!r.get_blacklist());
}

#[test]
fn findings_are_numbered_and_counted() {
    let mut r = Report::new(None);
    record(&mut r, VulnerabilityType::IntegerFlow, "a + b");
    record(&mut r, VulnerabilityType::TypeConfusion, "Foo");
    record(&mut r, VulnerabilityType::MissingKeyCheck, "key");
    record(&mut r, VulnerabilityType::BumpSeed, "seed");
    assert_eq!(r.total, 4);
    assert_eq!((r.int_cnt, r.typ_cnt, r.chk_cnt, r.oth_cnt), (1, 1, 1, 1));
    let ids: Vec<String> = r.vulns_map.iter().map(|v| v.id.clone()).collect();
    assert_eq!(ids, vec!["0", "1", "2", "3"]);
    assert_eq!(r.vulns_map[0].code, "a + b");
    assert_eq!(r.vulns_map[0].msg, "message");
    assert_eq!(r.vulns_map[0].link, "");
    assert_eq!(r.vulns_map[3].category, VulnerabilityType::BumpSeed);
}

#[test]
fn integer_findings_are_recorded_once_per_code() {
    let mut r = Report::new(None);
    record(&mut r, VulnerabilityType::IntegerFlow, "a + b");
    record(&mut r, VulnerabilityType::IntegerFlow, "a + b");
    record(&mut r, VulnerabilityType::MissingKeyCheck, "a + b");
    assert_eq!(r.total, 1);
    assert_eq!(r.vulns_code, vec!["a + b".to_string()]);
}

#[test]
fn other_findings_repeat_for_the_same_code() {
    let mut r = Report::new(None);
    record(&mut r, VulnerabilityType::TypeConfusion, "Foo");
    record(&mut r, VulnerabilityType::TypeConfusion, "Foo");
    record(&mut r, VulnerabilityType::IntegerFlow, "Foo");
    assert_eq!(r.total, 2);
    assert_eq!(r.typ_cnt, 2);
    assert_eq!(r.int_cnt, 0);
    assert_eq!(r.vulns_code.len(), 1);
}

#[test]
fn callstack_filter_reports_a_repeat() {
    let mut r = Report::new(None);
    r.filter_callstack("--a--b".to_string());
    assert!(!r.get_filtered());
    r.filter_callstack("--a--c".to_string());
    assert!(!r.get_filtered());
    r.filter_callstack("--a--b".to_string());
    assert!(r.get_filtered());
    r.reset_filter();
    r.filter_callstack("--a--b".to_string());
    assert!(!r.get_filtered());
}

#[test]
fn set_proj_names_the_project() {
    let mut r = Report::new(None);
    r.set_proj("token-swap".to_string());
    assert_eq!(r.proj, Some("token-swap".to_string()));
}

#[test]
fn blacklist_functions() {
    assert_eq!(Report::get_blacklist_func().len(), 8);
    assert!(Report::in_blacklist("<AccountInfo as Clone>::clone".to_string()));
    assert!(Report::in_blacklist("solana_program::program::invoke_signed".to_string()));
    assert!(!Report::in_blacklist("my_program::deposit".to_string()));
}

#[test]
fn call_stack_is_formatted_one_frame_per_line() {
    let mut tcx = empty_tcx();
    tcx.def_paths = vec![
        "prog::entry".to_string(),
        "prog::process".to_string(),
        "solana_program::account_info::AccountInfo::try_borrow_mut_data".to_string(),
    ];
    tcx.bodies = vec![Some(body_at(0, 0)), Some(body_at(1, 1)), None];
    tcx.spans = vec![span("src/lib.rs:1:1: 3:2"), span("src/lib.rs:5:1: 9:2")];
    let mut r = Report::new(None);
    let text = r.call_stack_formatter(&tcx, &[0, 1, 2]);
    assert_eq!(
        text,
        "fn prog::entry(){// src/lib.rs:1:1: 3:2 }\n\
         \tfn prog::process(){// src/lib.rs:5:1: 9:2 }\n\
         \t\tfn solana_program::account_info::AccountInfo::try_borrow_mut_data(){//  }\n"
    );
    assert!(!r.get_filtered());
    assert!(!r.get_blacklist());
    assert_eq!(r.filtered, vec!["--entry--process".to_string()]);
    let again = r.call_stack_formatter(&tcx, &[0, 1]);
    assert!(again.starts_with("fn prog::entry"));
    assert!(r.get_filtered());
}

#[test]
fn call_stack_through_a_blacklisted_function() {
    let mut tcx = empty_tcx();
    tcx.def_paths = vec!["prog::entry".to_string(), "solana_program::program::invoke_signed".to_string()];
    let mut r = Report::new(None);
    r.call_stack_formatter(&tcx, &[0, 1]);
    assert!(r.get_blacklist());
    r.call_stack_formatter(&tcx, &[0]);
    assert!(!r.get_blacklist());
}

#[test]
fn span_stack_is_indented_one_tab_per_level() {
    let mut tcx = empty_tcx();
    tcx.spans = vec![
        SpanInfo {
            diagnostic: "src/lib.rs:3:5: 3:9".to_string(),
            snippet: Some("a + b".to_string()),
            lo_file: None,
            hi_file: None,
            same_file: true,
            lines: None,
        },
        span("src/lib.rs:7:1: 7:4"),
    ];
    assert_eq!(
        Report::call_stack_formatter_span(&tcx, &[0, 1, 9]),
        "src/lib.rs:3:5: 3:9 \n\ta + b\n\tsrc/lib.rs:7:1: 7:4 \n\t\n\t\t\n"
    );
    assert_eq!(Report::call_stack_formatter_span(&tcx, &[]), "");
}

#[test]
fn frame_names_are_debug_rendered_without_quotes() {
    let mut tcx = empty_tcx();
    tcx.def_paths = vec!["prog::say\"hi\"".to_string(), "prog::tab\there".to_string()];
    let mut r = Report::new(None);
    let text = r.call_stack_formatter(&tcx, &[0, 1]);
    assert_eq!(text, "fn prog::say\\hi\\(){//  }\n\tfn prog::tab\\there(){//  }\n");
}
