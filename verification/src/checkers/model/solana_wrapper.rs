//! Solana functions through which states are passed on unchanged.

use vstd::prelude::*;
use crate::checkers::model::{lookup, InterceptedFn};

verus! {

/// The intercepted solana functions.
pub fn solana_identity_fns() -> (r: Vec<InterceptedFn>)
    ensures
        r@.len() == 1,
        r@[0].0@ == "solana_program::account_info::next_account_info"@ && r@[0].1@ == seq![0usize],
{
    proof {
        reveal_strlit("solana_program::account_info::next_account_info");
    }
    let r = vec![
        InterceptedFn(
            String::from_str("solana_program::account_info::next_account_info"),
            vec![0usize],
        ),
    ];
    assert(r@[0].1@ =~= seq![0usize]);
    r
}

/// The argument positions passed on by an intercepted solana function.
pub fn intercept_call(name: &String) -> (r: Option<Vec<usize>>)
    ensures
        match r {
            Some(v) => name@ == "solana_program::account_info::next_account_info"@ && v@ == seq![0usize],
            None => name@ != "solana_program::account_info::next_account_info"@,
        },
{
    let fns = solana_identity_fns();
    let r = lookup(&fns, name);
    proof {
        if r.is_none() {
            assert(fns@[0].0@ != name@);
        }
    }
    r
}

} // verus!
