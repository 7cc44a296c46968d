use vrust::strs::{
    join_strings, remove_quotes_exec, split_first, split_last_str, str_contains, str_eq,
    string_of_chars,
};

#[test]
fn contains_finds_substrings() {
    assert!(str_contains("solana_program::program::invoke", "invoke"));
    assert!(str_contains("abc", ""));
    assert!(!str_contains("ab", "abc"));
    assert!(!str_contains("deposit", "withdraw"));
}

#[test]
fn equality_is_exact() {
    assert!(str_eq("owner", "owner"));
    assert!(!str_eq("owner", "owners"));
    assert!(!str_eq("a", "b"));
}

#[test]
fn split_last_takes_the_last_piece() {
    assert_eq!(split_last_str("a::b::c", "::"), "c");
    assert_eq!(split_last_str("plain", "::"), "plain");
    assert_eq!(split_last_str("ends::", "::"), "");
    assert_eq!(split_last_str("a:::b", "::"), ":b");
}

#[test]
fn remove_quotes_drops_every_double_quote() {
    assert_eq!(remove_quotes_exec("\"seed\""), "seed");
    assert_eq!(remove_quotes_exec("no quotes"), "no quotes");
    assert_eq!(remove_quotes_exec("\"\""), "");
}

#[test]
fn join_puts_the_separator_between_parts() {
    let parts = vec!["struct A".to_string(), "struct B".to_string(), "struct C".to_string()];
    assert_eq!(join_strings(&parts, "\n"), "struct A\nstruct B\nstruct C");
    assert_eq!(join_strings(&vec!["one".to_string()], ", "), "one");
    assert_eq!(join_strings(&Vec::new(), ", "), "");
}

#[test]
fn split_first_parts_at_the_first_occurrence() {
    let (head, tail) = split_first("fn deposit(ctx: Context) -> Result", "(");
    assert_eq!(head, "fn deposit");
    assert_eq!(tail, Some("ctx: Context) -> Result".to_string()));
    let (head, tail) = split_first("no_paren", "(");
    assert_eq!(head, "no_paren");
    assert_eq!(tail, None);
}

#[test]
fn chars_become_a_string() {
    assert_eq!(string_of_chars(&vec!['v', 'r', 'u', 's', 't']), "vrust");
    assert_eq!(string_of_chars(&vec!['é', '→']), "é→");
    assert_eq!(string_of_chars(&Vec::new()), "");
}
