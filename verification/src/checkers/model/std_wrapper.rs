//! Std functions through which states are passed on unchanged: walking
//! into their bodies (down to intrinsics) would lose the states.

use vstd::prelude::*;
use crate::checkers::model::{lookup, InterceptedFn};

verus! {

/// The intercepted std functions.
pub fn std_identity_fns() -> (r: Vec<InterceptedFn>)
    ensures
        r@.len() == 3,
        r@[0].0@ == "core::slice::<impl [T]>::iter"@ && r@[0].1@ == seq![0usize],
        r@[1].0@ == "std::ops::Try::branch"@ && r@[1].1@ == seq![0usize],
        r@[2].0@ == "std::ops::Deref::deref"@ && r@[2].1@ == seq![0usize],
{
    proof {
        reveal_strlit("core::slice::<impl [T]>::iter");
        reveal_strlit("std::ops::Try::branch");
        reveal_strlit("std::ops::Deref::deref");
    }
    let r = vec![
        InterceptedFn(String::from_str("core::slice::<impl [T]>::iter"), vec![0usize]),
        InterceptedFn(String::from_str("std::ops::Try::branch"), vec![0usize]),
        InterceptedFn(String::from_str("std::ops::Deref::deref"), vec![0usize]),
    ];
    assert(r@[0].1@ =~= seq![0usize]);
    assert(r@[1].1@ =~= seq![0usize]);
    assert(r@[2].1@ =~= seq![0usize]);
    r
}

/// The argument positions passed on by an intercepted std function.
pub fn intercept_call(name: &String) -> (r: Option<Vec<usize>>)
    ensures
        match r {
            Some(v) => (name@ == "core::slice::<impl [T]>::iter"@ || name@ == "std::ops::Try::branch"@
                || name@ == "std::ops::Deref::deref"@) && v@ == seq![0usize],
            None => !(name@ == "core::slice::<impl [T]>::iter"@ || name@ == "std::ops::Try::branch"@
                || name@ == "std::ops::Deref::deref"@),
        },
{
    let fns = std_identity_fns();
    let r = lookup(&fns, name);
    proof {
        if r.is_none() {
            assert(fns@[0].0@ != name@);
            assert(fns@[1].0@ != name@);
            assert(fns@[2].0@ != name@);
        }
    }
    r
}

} // verus!
