//! Name lists that decide which variables count as signer variables.

use vstd::prelude::*;
use crate::strs::{seq_contains, str_contains};

verus! {

/// Views of a list of strings.
pub open spec fn strings_view(v: Seq<String>) -> Seq<Seq<char>> {
    v.map_values(|s: String| s@)
}

/// Whether some name of `names` occurs in `s`.
pub open spec fn contains_any(s: Seq<char>, names: Seq<Seq<char>>) -> bool {
    exists|i: int| 0 <= i < names.len() && seq_contains(s, names[i])
}

/// The substrings that mark a variable as an authority.
pub open spec fn spec_is_signer_vars() -> Seq<Seq<char>> {
    seq!["authority"@, "owner"@, "admin"@, "manager"@]
}

/// The substrings of names that are never analysed.
pub open spec fn spec_blacklist() -> Seq<Seq<char>> {
    seq!["anchor_lang"@, "__idl"@, "#[program]"@]
}

/// The substrings of signer variable names that are filtered out.
pub open spec fn spec_signer_filter_vars() -> Seq<Seq<char>> {
    seq!["::try_accounts"@]
}

/// Whether some name of `names` occurs in `s`.
pub fn contains_any_exec(s: &String, names: &Vec<String>) -> (r: bool)
    ensures
        r == contains_any(s@, strings_view(names@)),
{
    let mut i: usize = 0;
    while i < names.len()
        invariant
            i <= names@.len(),
            forall|k: int| 0 <= k < i ==> !seq_contains(s@, #[trigger] names@[k]@),
        decreases names@.len() - i,
    {
        if str_contains(s.as_str(), names[i].as_str()) {
            assert(seq_contains(s@, strings_view(names@)[i as int]));
            return true;
        }
        i = i + 1;
    }
    assert forall|k: int| 0 <= k < strings_view(names@).len() implies !seq_contains(s@, #[trigger] strings_view(names@)[k]) by {
        assert(strings_view(names@)[k] == names@[k]@);
    }
    false
}

/// The substrings that mark a variable as an authority.
pub fn get_is_signer_vars() -> (r: Vec<String>)
    ensures
        strings_view(r@) == spec_is_signer_vars(),
{
    let r = vec![
        String::from_str("authority"),
        String::from_str("owner"),
        String::from_str("admin"),
        String::from_str("manager"),
    ];
    proof {
        reveal_strlit("authority");
        reveal_strlit("owner");
        reveal_strlit("admin");
        reveal_strlit("manager");
        assert(strings_view(r@) =~= spec_is_signer_vars());
    }
    r
}

/// Whether the variable name contains one of the authority names.
pub fn check_is_signer_name(var_name: String) -> (r: bool)
    ensures
        r == contains_any(var_name@, spec_is_signer_vars()),
{
    let names = get_is_signer_vars();
    contains_any_exec(&var_name, &names)
}

/// The substrings of names that are never analysed.
pub fn get_blacklist() -> (r: Vec<String>)
    ensures
        strings_view(r@) == spec_blacklist(),
{
    let r = vec![
        String::from_str("anchor_lang"),
        String::from_str("__idl"),
        String::from_str("#[program]"),
    ];
    proof {
        reveal_strlit("anchor_lang");
        reveal_strlit("__idl");
        reveal_strlit("#[program]");
        assert(strings_view(r@) =~= spec_blacklist());
    }
    r
}

/// Whether the name contains one of the blacklisted substrings.
pub fn in_blacklist(var_name: String) -> (r: bool)
    ensures
        r == contains_any(var_name@, spec_blacklist()),
{
    let names = get_blacklist();
    contains_any_exec(&var_name, &names)
}

/// The substrings of signer variable names that are filtered out.
pub fn get_signer_filter_vars() -> (r: Vec<String>)
    ensures
        strings_view(r@) == spec_signer_filter_vars(),
{
    let r = vec![String::from_str("::try_accounts")];
    proof {
        reveal_strlit("::try_accounts");
        assert(strings_view(r@) =~= spec_signer_filter_vars());
    }
    r
}

/// Whether the signer variable name is one that is filtered out.
pub fn is_signer_var_filter(var_name: String) -> (r: bool)
    ensures
        r == contains_any(var_name@, spec_signer_filter_vars()),
{
    let names = get_signer_filter_vars();
    contains_any_exec(&var_name, &names)
}

} // verus!
