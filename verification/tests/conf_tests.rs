use vrust::conf::{
    check_is_signer_name, get_blacklist, get_is_signer_vars, get_signer_filter_vars, in_blacklist,
    is_signer_var_filter,
};

#[test]
fn signer_names_are_the_authority_names() {
    assert_eq!(get_is_signer_vars(), vec!["authority", "owner", "admin", "manager"]);
}

#[test]
fn signer_name_matches_by_substring() {
    assert!(check_is_signer_name("vault_authority".to_string()));
    assert!(check_is_signer_name("owner".to_string()));
    assert!(check_is_signer_name("pool_manager_info".to_string()));
    assert!(!check_is_signer_name("payer".to_string()));
    assert!(!check_is_signer_name(String::new()));
}

#[test]
fn blacklist_holds_the_framework_names() {
    assert_eq!(get_blacklist(), vec!["anchor_lang", "__idl", "#[program]"]);
    assert!(in_blacklist("anchor_lang::prelude::foo".to_string()));
    assert!(in_blacklist("my_program::__idl::create".to_string()));
    assert!(!in_blacklist("my_program::deposit".to_string()));
}

#[test]
fn signer_filter_passes_over_try_accounts() {
    assert_eq!(get_signer_filter_vars(), vec!["::try_accounts"]);
    assert!(is_signer_var_filter("<Signer as anchor_lang::Accounts>::try_accounts".to_string()));
    assert!(!is_signer_var_filter("authority".to_string()));
}
