//! Calls that pass the state of an argument on to their result, without
//! their bodies being analysed.

pub mod solana_wrapper;
pub mod std_wrapper;

use vstd::prelude::*;
use crate::mir::{def_path, DefId, Tcx};

verus! {

/// A function to be intercepted: its path, and the positions of the
/// arguments whose states its result takes.
pub struct InterceptedFn(pub String, pub Vec<usize>);

/// The argument positions whose states an intercepted callee passes on,
/// when the callee is one of the intercepted functions.
pub open spec fn spec_intercepted(path: Seq<char>) -> Option<Seq<usize>> {
    if path == "core::slice::<impl [T]>::iter"@ || path == "std::ops::Try::branch"@ || path
        == "std::ops::Deref::deref"@ || path == "solana_program::account_info::next_account_info"@ {
        Some(seq![0usize])
    } else {
        None
    }
}

/// The argument positions whose states the callee passes on, when it is
/// intercepted (the std functions first, then the solana ones).
pub fn intercept_call(callee: DefId, tcx: &Tcx) -> (r: Option<Vec<usize>>)
    ensures
        match r {
            Some(v) => spec_intercepted(def_path(*tcx, callee)) == Some(v@),
            None => spec_intercepted(def_path(*tcx, callee)).is_none(),
        },
{
    let name = tcx.def_path_str(callee);
    match std_wrapper::intercept_call(&name) {
        Some(v) => Some(v),
        None => solana_wrapper::intercept_call(&name),
    }
}

/// The argument positions listed for `name` in `fns`, if it is there.
pub fn lookup(fns: &Vec<InterceptedFn>, name: &String) -> (r: Option<Vec<usize>>)
    ensures
        match r {
            Some(v) => exists|i: int| 0 <= i < fns@.len() && fns@[i].0@ == name@ && fns@[i].1@ == v@
                && forall|j: int| 0 <= j < i ==> fns@[j].0@ != name@,
            None => forall|i: int| 0 <= i < fns@.len() ==> fns@[i].0@ != name@,
        },
{
    let mut i: usize = 0;
    while i < fns.len()
        invariant
            i <= fns@.len(),
            forall|j: int| 0 <= j < i ==> fns@[j].0@ != name@,
        decreases fns@.len() - i,
    {
        if crate::strs::str_eq(fns[i].0.as_str(), name.as_str()) {
            let v = copy_indices(&fns[i].1);
            return Some(v);
        }
        i = i + 1;
    }
    None
}

/// A copy of a list of positions.
pub fn copy_indices(v: &Vec<usize>) -> (r: Vec<usize>)
    ensures
        r@ == v@,
{
    let mut r: Vec<usize> = Vec::new();
    let mut i: usize = 0;
    while i < v.len()
        invariant
            i <= v@.len(),
            r@ == v@.subrange(0, i as int),
        decreases v@.len() - i,
    {
        r.push(v[i]);
        i = i + 1;
    }
    assert(r@ =~= v@);
    r
}

} // verus!
