use vrust::version::{
    check_lockfile, check_version, lock_candidates, parse_u64, parse_version, LockPackage,
};

fn pkg(name: &str, major: u64, minor: u64, patch: u64) -> LockPackage {
    LockPackage { name: name.to_string(), major, minor, patch }
}

fn chars(s: &str) -> Vec<char> {
    s.chars().collect()
}

#[test]
fn parse_u64_reads_decimal_numbers() {
    assert_eq!(parse_u64(&chars("0")), Some(0));
    assert_eq!(parse_u64(&chars("42")), Some(42));
    assert_eq!(parse_u64(&chars("+7")), Some(7));
    assert_eq!(parse_u64(&chars("18446744073709551615")), Some(u64::MAX));
    assert_eq!(parse_u64(&chars("18446744073709551616")), None);
    assert_eq!(parse_u64(&chars("")), None);
    assert_eq!(parse_u64(&chars("+")), None);
    assert_eq!(parse_u64(&chars("1a")), None);
    assert_eq!(parse_u64(&chars("-1")), None);
}

#[test]
fn parse_version_reads_three_numbers() {
    assert_eq!(parse_version("3.1.1"), Some((3, 1, 1)));
    assert_eq!(parse_version("0.10.25"), Some((0, 10, 25)));
    assert_eq!(parse_version("3.1"), None);
    assert_eq!(parse_version("3.1.1.4"), None);
    assert_eq!(parse_version("3.x.1"), None);
    assert_eq!(parse_version(""), None);
}

#[test]
fn lockfile_first_matching_package_decides() {
    let pkgs = vec![pkg("anchor-lang", 0, 24, 2), pkg("spl-token", 3, 2, 0), pkg("spl-token", 1, 0, 0)];
    assert_eq!(check_lockfile(&pkgs, "spl-token", (3, 1, 1)), Some(true));
    assert_eq!(check_lockfile(&pkgs, "spl-token", (3, 2, 1)), Some(false));
    assert_eq!(check_lockfile(&pkgs, "spl-token", (3, 2, 0)), Some(true));
    assert_eq!(check_lockfile(&pkgs, "serum-dex", (0, 1, 0)), None);
    assert_eq!(check_lockfile(&Vec::new(), "spl-token", (0, 0, 0)), None);
}

#[test]
fn version_check_uses_the_first_lockfile_that_knows_the_crate() {
    let old = vec![pkg("spl-token", 3, 0, 0)];
    let new = vec![pkg("spl-token", 3, 3, 0)];
    let unrelated = vec![pkg("borsh", 0, 9, 1)];
    let lockfiles = vec![None, Some(unrelated), Some(old), Some(new)];
    assert!(!check_version("spl-token", "3.1.1", &lockfiles));
    let lockfiles = vec![Some(vec![pkg("spl-token", 3, 3, 0)]), Some(vec![pkg("spl-token", 3, 0, 0)])];
    assert!(check_version("spl-token", "3.1.1", &lockfiles));
}

#[test]
fn version_check_passes_when_no_lockfile_names_the_crate() {
    let lockfiles = vec![None, Some(vec![pkg("borsh", 0, 9, 1)])];
    assert!(check_version("spl-token", "3.1.1", &lockfiles));
    assert!(check_version("spl-token", "3.1.1", &Vec::new()));
}

#[test]
fn lock_candidates_walk_up_once_per_slash() {
    assert_eq!(
        lock_candidates("/home/user/proj"),
        vec![
            "/home/user/proj/Cargo.lock".to_string(),
            "/home/user/proj/../Cargo.lock".to_string(),
            "/home/user/proj/../../Cargo.lock".to_string(),
        ]
    );
    assert_eq!(lock_candidates("relative"), Vec::<String>::new());
}

#[test]
fn version_order_is_total_on_examples() {
    // at_least is reflexive, and of two versions one is at least the other.
    let a = vec![pkg("x", 1, 2, 3)];
    assert_eq!(check_lockfile(&a, "x", (1, 2, 3)), Some(true));
    let b = vec![pkg("x", 1, 3, 0)];
    assert_eq!(check_lockfile(&b, "x", (1, 2, 3)), Some(true));
    assert_eq!(check_lockfile(&a, "x", (1, 3, 0)), Some(false));
}
