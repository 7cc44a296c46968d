//! Owner check: in a function that processes accounts (an anchor `Context`
//! or a slice of account infos), the owner of an account must be compared with an
//! expected owner id (a constant key or a key parameter).

use vstd::prelude::*;
use crate::checkers::{finding_reported, report_finding};
use crate::checkers::bump_seed::{const_callee, const_callee_exec};
use crate::mir::{
    adt_did, def_path, is_arg_local, peel_refs, peeled_adt_path, place_ty, place_ty_exec, symbol,
    ty_of, Body, DefId, Operand, Place, PlaceView, Rvalue, BinOp, Tcx, Terminator, TerminatorKind,
    TyKind,
};
use crate::reporter::{report_wf, Report, VulnerabilityType};
use crate::source_info::{
    get_source_file, get_source_lines, or_empty, spec_source_file, spec_source_lines,
    unwrap_or_empty,
};
use crate::strs::str_eq;
use crate::wpa::{flag_of, flags_set, FullPlaceRef, FullPlaceView, StateMachine, StateTransitor};

verus! {

pub open spec fn owner_pubkey_path() -> Seq<char> {
    "anchor_lang::prelude::Pubkey"@
}

pub open spec fn context_path() -> Seq<char> {
    "anchor_lang::context::Context"@
}

pub open spec fn accounts_trait_path() -> Seq<char> {
    "anchor_lang::Accounts"@
}

/// Whether a value comes from an owner field, whether it is an expected
/// owner id; and the function's shared flags for the check and for data use.
#[derive(Debug, Clone, Copy, PartialEq, Eq)]
pub struct OwnerCheck {
    pub from_owner_field: bool,
    pub owner_id: bool,
    pub checked: usize,
    pub data_used: usize,
}

/// The default state in the current function: it shares the function's
/// flags (an unknown flag when the function has no state).
pub open spec fn oc_default(func_states: Map<DefId, OwnerCheck>, cur: DefId) -> OwnerCheck {
    if func_states.contains_key(cur) {
        OwnerCheck {
            from_owner_field: true,
            owner_id: false,
            checked: func_states[cur].checked,
            data_used: func_states[cur].data_used,
        }
    } else {
        OwnerCheck { from_owner_field: true, owner_id: false, checked: usize::MAX, data_used: usize::MAX }
    }
}

/// The type is the public key type.
pub open spec fn oc_pubkey(tcx: Tcx, t: Option<u32>) -> bool {
    match t {
        Some(t) => peeled_adt_path(tcx, t) == Some(owner_pubkey_path()),
        None => false,
    }
}

/// The state of a place.
pub open spec fn oc_place(
    states: Map<FullPlaceView, OwnerCheck>,
    func_states: Map<DefId, OwnerCheck>,
    cur: DefId,
    tcx: Tcx,
    body: Body,
    p: PlaceView,
) -> OwnerCheck {
    let k = FullPlaceView { func: body.def_id, place: p };
    if states.contains_key(k) {
        states[k]
    } else {
        OwnerCheck {
            owner_id: is_arg_local(body, p.local) && oc_pubkey(tcx, place_ty(tcx, body, p)),
            ..oc_default(func_states, cur)
        }
    }
}

/// The state of an operand.
pub open spec fn oc_operand(
    states: Map<FullPlaceView, OwnerCheck>,
    func_states: Map<DefId, OwnerCheck>,
    cur: DefId,
    tcx: Tcx,
    body: Body,
    op: Operand,
) -> OwnerCheck {
    match op {
        Operand::Copy(p) => oc_place(states, func_states, cur, tcx, body, p@),
        Operand::Move(p) => oc_place(states, func_states, cur, tcx, body, p@),
        Operand::Constant(c) => OwnerCheck { owner_id: oc_pubkey(tcx, Some(c.ty)), ..oc_default(func_states, cur) },
    }
}

/// The flags after a comparison of two operands: an owner id among them
/// sets its check flag.
pub open spec fn oc_compare(
    states: Map<FullPlaceView, OwnerCheck>,
    func_states: Map<DefId, OwnerCheck>,
    flags: Seq<bool>,
    cur: DefId,
    tcx: Tcx,
    body: Body,
    a: Operand,
    b: Operand,
) -> Seq<bool> {
    let sa = oc_operand(states, func_states, cur, tcx, body, a);
    let sb = oc_operand(states, func_states, cur, tcx, body, b);
    let f1 = if sa.owner_id { flags_set(flags, sa.checked, true) } else { flags };
    if sb.owner_id { flags_set(f1, sb.checked, true) } else { f1 }
}

/// The merge of two states: the flags of the first are kept and set when
/// those of the second are.
pub open spec fn oc_merge(a: OwnerCheck, b: OwnerCheck, flags: Seq<bool>) -> (OwnerCheck, Seq<bool>) {
    let f1 = if flag_of(flags, b.checked) { flags_set(flags, a.checked, true) } else { flags };
    let f2 = if flag_of(f1, b.data_used) { flags_set(f1, a.data_used, true) } else { f1 };
    (
        OwnerCheck {
            from_owner_field: a.from_owner_field || b.from_owner_field,
            owner_id: a.owner_id || b.owner_id,
            checked: a.checked,
            data_used: a.data_used,
        },
        f2,
    )
}

/// The function processes accounts: its first parameter is an anchor
/// `Context`, or one of its parameters is (a reference to) a slice of account infos.
pub open spec fn oc_interesting(tcx: Tcx, body: Body) -> bool {
    (body.arg_count >= 1 && body.local_decls@.len() > 1 && match adt_did(tcx, body.local_decls@[1]) {
        Some(did) => def_path(tcx, did) == context_path(),
        None => false,
    }) || exists|i: int|
        1 <= i <= body.arg_count && i < body.local_decls@.len() && slice_of_accounts(
            tcx,
            #[trigger] body.local_decls@[i],
        )
}

/// The type is (a reference to) a slice of account infos.
pub open spec fn slice_of_accounts(tcx: Tcx, t: u32) -> bool {
    match ty_of(tcx, peel_refs(tcx, t)) {
        Some(d) => match d.kind {
            TyKind::Slice(e) => match adt_did(tcx, e) {
                Some(did) => account_info_path(def_path(tcx, did)),
                None => false,
            },
            _ => false,
        },
        None => false,
    }
}

/// The path is that of the account info type.
pub open spec fn account_info_path(p: Seq<char>) -> bool {
    p == "solana_program::account_info::AccountInfo"@ || p == "anchor_lang::prelude::AccountInfo"@
}

/// Whether the type is the public key type.
fn is_pubkey(tcx: &Tcx, t: Option<u32>) -> (r: bool)
    ensures
        r == oc_pubkey(*tcx, t),
{
    match t {
        Some(t) => match tcx.peeled_adt_path(t) {
            Some(path) => {
                proof {
                    reveal_strlit("anchor_lang::prelude::Pubkey");
                }
                str_eq(path.as_str(), "anchor_lang::prelude::Pubkey")
            },
            None => false,
        },
        None => false,
    }
}

/// Whether the type is (a reference to) a slice of account infos.
fn is_slice_of_accounts(tcx: &Tcx, t: u32) -> (r: bool)
    ensures
        r == slice_of_accounts(*tcx, t),
{
    let p = tcx.peel_refs(t);
    match tcx.ty(p) {
        Some(d) => match &d.kind {
            TyKind::Slice(e) => match tcx.adt_did(*e) {
                Some(did) => {
                    let path = tcx.def_path_str(did);
                    str_eq(path.as_str(), "solana_program::account_info::AccountInfo") || str_eq(
                        path.as_str(),
                        "anchor_lang::prelude::AccountInfo",
                    )
                },
                None => false,
            },
            _ => false,
        },
        None => false,
    }
}

/// The trait `anchor_lang::Accounts`, when the crate knows it (the last
/// such trait).
pub fn get_try_account_trait(tcx: &Tcx) -> (r: Option<DefId>)
    ensures
        match r {
            Some(t) => def_path(*tcx, t) == accounts_trait_path() && exists|i: int|
                0 <= i < tcx.all_traits@.len() && tcx.all_traits@[i] == t && forall|j: int|
                    i < j < tcx.all_traits@.len() ==> def_path(*tcx, #[trigger] tcx.all_traits@[j])
                        != accounts_trait_path(),
            None => forall|i: int|
                0 <= i < tcx.all_traits@.len() ==> def_path(*tcx, #[trigger] tcx.all_traits@[i])
                    != accounts_trait_path(),
        },
{
    let mut found: Option<DefId> = None;
    let mut found_at: usize = 0;
    let mut i: usize = 0;
    proof {
        reveal_strlit("anchor_lang::Accounts");
    }
    while i < tcx.all_traits.len()
        invariant
            i <= tcx.all_traits@.len(),
            match found {
                Some(t) => def_path(*tcx, t) == accounts_trait_path() && found_at < i
                    && tcx.all_traits@[found_at as int] == t && forall|j: int|
                    found_at < j < i ==> def_path(*tcx, #[trigger] tcx.all_traits@[j]) != accounts_trait_path(),
                None => forall|j: int|
                    0 <= j < i ==> def_path(*tcx, #[trigger] tcx.all_traits@[j]) != accounts_trait_path(),
            },
        decreases tcx.all_traits@.len() - i,
    {
        let t = tcx.all_traits[i];
        let path = tcx.def_path_str(t);
        if str_eq(path.as_str(), "anchor_lang::Accounts") {
            found = Some(t);
            found_at = i;
        }
        i = i + 1;
    }
    found
}

/// `f` is the `try_accounts` function of an implementation of `trait_id`
/// for the algebraic data type `adt`.
pub open spec fn is_try_accounts_of(tcx: Tcx, trait_id: DefId, adt: DefId, f: DefId) -> bool {
    exists|k: int, m: int|
        0 <= k < tcx.trait_impls@.len() && tcx.trait_impls@[k].trait_id == trait_id
            && tcx.trait_impls@[k].self_adt == Some(adt) && 0 <= m < tcx.trait_impls@[k].items@.len()
            && symbol(tcx, tcx.trait_impls@[k].items@[m].0) == "try_accounts"@
            && tcx.trait_impls@[k].items@[m].1 == f
}

/// The first associated item named `try_accounts`, if any.
pub open spec fn first_try_accounts(tcx: Tcx, items: Seq<(u32, DefId)>) -> Option<DefId>
    decreases items.len(),
{
    if items.len() == 0 {
        None
    } else if symbol(tcx, items[0].0) == "try_accounts"@ {
        Some(items[0].1)
    } else {
        first_try_accounts(tcx, items.subrange(1, items.len() as int))
    }
}

/// The `try_accounts` functions of the implementations of `trait_id` for
/// `adt` among the first `k` implementations, in order: the first such item
/// of each implementation that has one.
pub open spec fn try_accounts_list(tcx: Tcx, trait_id: DefId, adt: DefId, k: int) -> Seq<DefId>
    decreases k,
{
    if k <= 0 {
        Seq::empty()
    } else {
        let rest = try_accounts_list(tcx, trait_id, adt, k - 1);
        let imp = tcx.trait_impls@[k - 1];
        if imp.trait_id == trait_id && imp.self_adt == Some(adt) {
            match first_try_accounts(tcx, imp.items@) {
                Some(f) => rest.push(f),
                None => rest,
            }
        } else {
            rest
        }
    }
}

proof fn lemma_first_try_accounts_is_item(tcx: Tcx, items: Seq<(u32, DefId)>)
    ensures
        first_try_accounts(tcx, items) matches Some(f) ==> exists|m: int|
            0 <= m < items.len() && symbol(tcx, items[m].0) == "try_accounts"@ && items[m].1 == f,
    decreases items.len(),
{
    if items.len() > 0 && symbol(tcx, items[0].0) != "try_accounts"@ {
        let rest = items.subrange(1, items.len() as int);
        lemma_first_try_accounts_is_item(tcx, rest);
        if first_try_accounts(tcx, rest) is Some {
            let m = choose|m: int| 0 <= m < rest.len() && symbol(tcx, rest[m].0) == "try_accounts"@ && rest[m].1
                == first_try_accounts(tcx, rest)->0;
            assert(items[m + 1] == rest[m]);
        }
    }
}

/// The first associated item named `try_accounts`, if any.
fn find_try_accounts(tcx: &Tcx, items: &Vec<(u32, DefId)>) -> (r: Option<DefId>)
    ensures
        r == first_try_accounts(*tcx, items@),
{
    let mut m: usize = 0;
    proof {
        reveal_strlit("try_accounts");
        assert(items@.subrange(0, items@.len() as int) =~= items@);
    }
    while m < items.len()
        invariant
            m <= items@.len(),
            first_try_accounts(*tcx, items@) == first_try_accounts(*tcx, items@.subrange(m as int, items@.len() as int)),
        decreases items@.len() - m,
    {
        let ghost rest = items@.subrange(m as int, items@.len() as int);
        assert(rest[0] == items@[m as int]);
        assert(rest.subrange(1, rest.len() as int) =~= items@.subrange(m + 1, items@.len() as int));
        let name = tcx.symbol_str(items[m].0);
        if str_eq(name.as_str(), "try_accounts") {
            return Some(items[m].1);
        }
        m = m + 1;
    }
    None
}

/// The `try_accounts` functions of the implementations of `trait_id` for
/// the algebraic data type `adt`, in order (see `try_accounts_list`).
pub fn try_accounts_fns(tcx: &Tcx, trait_id: DefId, adt: DefId) -> (r: Vec<DefId>)
    ensures
        r@ == try_accounts_list(*tcx, trait_id, adt, tcx.trait_impls@.len() as int),
        forall|i: int| 0 <= i < r@.len() ==> is_try_accounts_of(*tcx, trait_id, adt, #[trigger] r@[i]),
{
    let mut r: Vec<DefId> = Vec::new();
    let mut k: usize = 0;
    while k < tcx.trait_impls.len()
        invariant
            k <= tcx.trait_impls@.len(),
            r@ == try_accounts_list(*tcx, trait_id, adt, k as int),
            forall|i: int| 0 <= i < r@.len() ==> is_try_accounts_of(*tcx, trait_id, adt, #[trigger] r@[i]),
        decreases tcx.trait_impls@.len() - k,
    {
        let imp = &tcx.trait_impls[k];
        let matches = imp.trait_id == trait_id && match imp.self_adt {
            Some(a) => a == adt,
            None => false,
        };
        if matches {
            match find_try_accounts(tcx, &imp.items) {
                Some(f) => {
                    proof {
                        lemma_first_try_accounts_is_item(*tcx, imp.items@);
                        let m = choose|m: int| 0 <= m < imp.items@.len() && symbol(*tcx, imp.items@[m].0)
                            == "try_accounts"@ && imp.items@[m].1 == f;
                        assert(tcx.trait_impls@[k as int].items@[m] == imp.items@[m]);
                        assert(is_try_accounts_of(*tcx, trait_id, adt, f));
                    }
                    r.push(f);
                },
                None => {},
            }
        }
        k = k + 1;
    }
    r
}

/// The accounts type of an anchor `Context` first parameter: the last type
/// argument of the context, when it is an algebraic data type.
pub open spec fn ctx_accounts(tcx: Tcx, body: Body) -> Option<DefId> {
    if body.arg_count >= 1 && body.local_decls@.len() > 1 {
        match ty_of(tcx, body.local_decls@[1]) {
            Some(d) => match d.kind {
                TyKind::Adt { did, substs } => if def_path(tcx, did) == context_path() && substs@.len() > 0 {
                    adt_did(tcx, substs@.last())
                } else {
                    None
                },
                _ => None,
            },
            None => None,
        }
    } else {
        None
    }
}

/// What the last of the functions that has a state says: whether its owner
/// was compared (false when none has a state).
pub open spec fn last_checked(fs: Seq<DefId>, func_states: Map<DefId, OwnerCheck>, flags: Seq<bool>) -> bool
    decreases fs.len(),
{
    if fs.len() == 0 {
        false
    } else if func_states.contains_key(fs.last()) {
        flag_of(flags, func_states[fs.last()].checked)
    } else {
        last_checked(fs.drop_last(), func_states, flags)
    }
}

/// Whether the `try_accounts` functions of the accounts type of the
/// function's anchor `Context` compared an owner (as the last of them with a
/// state says).
pub open spec fn try_accounts_checked(tcx: Tcx, body: Body, func_states: Map<DefId, OwnerCheck>, flags: Seq<bool>) -> bool {
    match (ctx_accounts(tcx, body), crate::accounts::last_accounts_trait(tcx)) {
        (Some(a), Some(t)) => last_checked(try_accounts_list(tcx, t, a, tcx.trait_impls@.len() as int), func_states, flags),
        _ => false,
    }
}

impl OwnerCheck {
    /// The default state in the current function: it shares the function's
    /// flags.
    pub fn get_default(sm: &StateMachine<Self>) -> (r: Self)
        requires
            sm.wf(),
            sm.stack().len() > 0,
        ensures
            r == oc_default(sm.func_states(), sm.stack().last()),
    {
        match sm.get_cur_func_state() {
            Some(func_st) => OwnerCheck {
                from_owner_field: true,
                owner_id: false,
                checked: func_st.checked,
                data_used: func_st.data_used,
            },
            None => OwnerCheck {
                from_owner_field: true,
                owner_id: false,
                checked: usize::MAX,
                data_used: usize::MAX,
            },
        }
    }
}

impl StateTransitor for OwnerCheck {
    open spec fn rvalue_step(
        rvalue: Rvalue,
        body: Body,
        tcx: Tcx,
        span: u32,
        sa: crate::wpa::SmState<Self>,
        ra: Report,
        r: Self,
        sb: crate::wpa::SmState<Self>,
        rb: Report,
    ) -> bool {
        &&& (rb == ra)
        &&& (sb.states == sa.states)
        &&& (match rvalue {
                    Rvalue::Use(op) => r == oc_operand(sa.states, sa.func_states, sa.stack.last(), tcx, body, op)
                        && sb.flags == sa.flags,
                    Rvalue::Ref(p) => r == oc_place(sa.states, sa.func_states, sa.stack.last(), tcx, body, p@)
                        && sb.flags == sa.flags,
                    Rvalue::BinaryOp(o, a, b) => r == oc_default(sa.func_states, sa.stack.last())
                        && sb.flags == if o == BinOp::Ne || o == BinOp::Eq {
                        oc_compare(sa.states, sa.func_states, sa.flags, sa.stack.last(), tcx, body, a, b)
                    } else {
                        sa.flags
                    },
                    _ => r == oc_default(sa.func_states, sa.stack.last())
                        && sb.flags == sa.flags,
                })
    }

    open spec fn operand_step(
        op: Operand,
        body: Body,
        tcx: Tcx,
        span: u32,
        sa: crate::wpa::SmState<Self>,
        ra: Report,
        r: Self,
        sb: crate::wpa::SmState<Self>,
        rb: Report,
    ) -> bool {
        &&& (rb == ra)
        &&& (sb == sa)
        &&& (r == oc_operand(sa.states, sa.func_states, sa.stack.last(), tcx, body, op))
    }

    open spec fn place_step(
        place: crate::mir::PlaceView,
        body: Body,
        tcx: Tcx,
        span: Option<u32>,
        sa: crate::wpa::SmState<Self>,
        ra: Report,
        r: Self,
        sb: crate::wpa::SmState<Self>,
        rb: Report,
    ) -> bool {
        &&& (rb == ra)
        &&& (sb == sa)
        &&& (r == oc_place(sa.states, sa.func_states, sa.stack.last(), tcx, body, place))
    }

    open spec fn init_step(
        place: crate::mir::PlaceView,
        body: Body,
        tcx: Tcx,
        sa: crate::wpa::SmState<Self>,
        ra: Report,
        r: Self,
        sb: crate::wpa::SmState<Self>,
        rb: Report,
    ) -> bool {
        &&& (rb == ra)
        &&& (sb == sa)
        &&& (r == (OwnerCheck {
                    owner_id: oc_pubkey(tcx, place_ty(tcx, body, place)) && is_arg_local(body, place.local),
                    ..oc_default(sa.func_states, sa.stack.last())
                }))
    }

    open spec fn terminator_step(
        terminator: Terminator,
        body: Body,
        tcx: Tcx,
        span: u32,
        sa: crate::wpa::SmState<Self>,
        ra: Report,
        r: Self,
        sb: crate::wpa::SmState<Self>,
        rb: Report,
    ) -> bool {
        &&& (rb == ra)
        &&& (sb.states == sa.states)
        &&& (r == oc_default(sa.func_states, sa.stack.last()))
        &&& (sb.flags == match const_callee(tcx, terminator) {
                    Some(f) => match terminator.kind {
                        TerminatorKind::Call { args, .. } => if (def_path(tcx, f) == "std::cmp::PartialEq::eq"@
                            || def_path(tcx, f) == "std::cmp::PartialEq::ne"@) && args@.len() == 2 {
                            oc_compare(sa.states, sa.func_states, sa.flags, sa.stack.last(), tcx, body, args@[0], args@[1])
                        } else {
                            sa.flags
                        },
                        _ => sa.flags,
                    },
                    None => sa.flags,
                })
    }

    open spec fn spec_merge(self, other: Self, tcx: Tcx, flags: Seq<bool>) -> Self {
        oc_merge(self, other, flags).0
    }

    open spec fn spec_merge_flags(self, other: Self, flags: Seq<bool>) -> Seq<bool> {
        oc_merge(self, other, flags).1
    }

    fn dup(&self) -> (r: Self) {
        *self
    }

    /// A comparison with an owner id marks the function as checked.
    fn compute_rvalue(
        rvalue: &Rvalue,
        body: &Body,
        tcx: &Tcx,
        sm: &mut StateMachine<Self>,
        report: &mut Report,
        span: u32,
    ) -> (r: Self)
        ensures
            *final(report) == *old(report),
            final(sm).states() == old(sm).states(),
            match *rvalue {
                Rvalue::Use(op) => r == oc_operand(old(sm).states(), old(sm).func_states(), old(sm).stack().last(), *tcx, *body, op)
                    && final(sm).flags() == old(sm).flags(),
                Rvalue::Ref(p) => r == oc_place(old(sm).states(), old(sm).func_states(), old(sm).stack().last(), *tcx, *body, p@)
                    && final(sm).flags() == old(sm).flags(),
                Rvalue::BinaryOp(o, a, b) => r == oc_default(old(sm).func_states(), old(sm).stack().last())
                    && final(sm).flags() == if o == BinOp::Ne || o == BinOp::Eq {
                    oc_compare(old(sm).states(), old(sm).func_states(), old(sm).flags(), old(sm).stack().last(), *tcx, *body, a, b)
                } else {
                    old(sm).flags()
                },
                _ => r == oc_default(old(sm).func_states(), old(sm).stack().last())
                    && final(sm).flags() == old(sm).flags(),
            },
    {
        match rvalue {
            Rvalue::Use(op) => {
                return Self::compute_operand(op, body, tcx, sm, report, span);
            },
            Rvalue::Ref(place) => {
                return Self::compute_place(place, body, tcx, sm, report, Some(span));
            },
            Rvalue::BinaryOp(opnd, lhs, rhs) => match opnd {
                BinOp::Ne | BinOp::Eq => {
                    let st = Self::compute_operand(lhs, body, tcx, sm, report, span);
                    if st.owner_id {
                        sm.set_flag(st.checked, true);
                    }
                    let st = Self::compute_operand(rhs, body, tcx, sm, report, span);
                    if st.owner_id {
                        sm.set_flag(st.checked, true);
                    }
                },
                _ => {},
            },
            _ => {},
        }
        OwnerCheck::get_default(sm)
    }

    fn compute_operand(
        op: &Operand,
        body: &Body,
        tcx: &Tcx,
        sm: &mut StateMachine<Self>,
        report: &mut Report,
        span: u32,
    ) -> (r: Self)
        ensures
            *final(report) == *old(report),
            *final(sm) == *old(sm),
            r == oc_operand(old(sm).states(), old(sm).func_states(), old(sm).stack().last(), *tcx, *body, *op),
    {
        match op {
            Operand::Copy(place) | Operand::Move(place) => Self::compute_place(
                place,
                body,
                tcx,
                sm,
                report,
                Some(span),
            ),
            Operand::Constant(c) => {
                let mut st = OwnerCheck::get_default(sm);
                if is_pubkey(tcx, Some(c.ty)) {
                    st.owner_id = true;
                }
                st
            },
        }
    }

    /// A place with a state keeps it; a key parameter is an owner id.
    fn compute_place(
        place: &Place,
        body: &Body,
        tcx: &Tcx,
        sm: &mut StateMachine<Self>,
        report: &mut Report,
        span: Option<u32>,
    ) -> (r: Self)
        ensures
            *final(report) == *old(report),
            *final(sm) == *old(sm),
            r == oc_place(old(sm).states(), old(sm).func_states(), old(sm).stack().last(), *tcx, *body, place@),
    {
        let fp = FullPlaceRef::new(body.def_id, place.copy_place());
        match sm.get_state(&fp) {
            Some(st) => {
                return *st;
            },
            None => {},
        }
        let mut st = OwnerCheck::get_default(sm);
        let local_index = place.local as usize;
        if 1usize <= local_index && local_index <= body.arg_count {
            if is_pubkey(tcx, place_ty_exec(tcx, body, place)) {
                st.owner_id = true;
            }
        }
        st
    }

    fn init_place(
        place: &Place,
        body: &Body,
        tcx: &Tcx,
        sm: &mut StateMachine<Self>,
        report: &mut Report,
    ) -> (r: Self)
        ensures
            *final(report) == *old(report),
            *final(sm) == *old(sm),
            r == (OwnerCheck {
                owner_id: oc_pubkey(*tcx, place_ty(*tcx, *body, place@)) && is_arg_local(*body, place.local),
                ..oc_default(old(sm).func_states(), old(sm).stack().last())
            }),
    {
        let mut st = OwnerCheck::get_default(sm);
        if is_pubkey(tcx, place_ty_exec(tcx, body, place)) {
            let local_index = place.local as usize;
            if 1usize <= local_index && local_index <= body.arg_count {
                st.owner_id = true;
            }
        }
        st
    }

    fn merge(&self, other: Self, body: &Body, tcx: &Tcx, sm: &mut StateMachine<Self>) -> (r: Self) {
        if sm.flag(other.checked) {
            sm.set_flag(self.checked, true);
        }
        if sm.flag(other.data_used) {
            sm.set_flag(self.data_used, true);
        }
        OwnerCheck {
            from_owner_field: self.from_owner_field || other.from_owner_field,
            owner_id: self.owner_id || other.owner_id,
            checked: self.checked,
            data_used: self.data_used,
        }
    }

    /// A call of `eq` or `ne` with an owner id marks the function as checked.
    fn compute_terminator(
        terminator: &Terminator,
        body: &Body,
        tcx: &Tcx,
        sm: &mut StateMachine<Self>,
        report: &mut Report,
        span: u32,
    ) -> (r: Self)
        ensures
            *final(report) == *old(report),
            final(sm).states() == old(sm).states(),
            r == oc_default(old(sm).func_states(), old(sm).stack().last()),
            final(sm).flags() == match const_callee(*tcx, *terminator) {
                Some(f) => match terminator.kind {
                    TerminatorKind::Call { args, .. } => if (def_path(*tcx, f) == "std::cmp::PartialEq::eq"@
                        || def_path(*tcx, f) == "std::cmp::PartialEq::ne"@) && args@.len() == 2 {
                        oc_compare(old(sm).states(), old(sm).func_states(), old(sm).flags(), old(sm).stack().last(), *tcx, *body, args@[0], args@[1])
                    } else {
                        old(sm).flags()
                    },
                    _ => old(sm).flags(),
                },
                None => old(sm).flags(),
            },
    {
        proof {
            reveal_strlit("std::cmp::PartialEq::ne");
            reveal_strlit("std::cmp::PartialEq::eq");
        }
        match const_callee_exec(tcx, terminator) {
            Some(f) => {
                let func_name = tcx.def_path_str(f);
                match &terminator.kind {
                    TerminatorKind::Call { args, .. } => {
                        if (str_eq(func_name.as_str(), "std::cmp::PartialEq::eq") || str_eq(
                            func_name.as_str(),
                            "std::cmp::PartialEq::ne",
                        )) && args.len() == 2 {
                            let st = Self::compute_operand(&args[0], body, tcx, sm, report, span);
                            if st.owner_id {
                                sm.set_flag(st.checked, true);
                            }
                            let st = Self::compute_operand(&args[1], body, tcx, sm, report, span);
                            if st.owner_id {
                                sm.set_flag(st.checked, true);
                            }
                        }
                    },
                    _ => {},
                }
            },
            None => {},
        }
        OwnerCheck::get_default(sm)
    }

    /// A function that processes accounts (see `oc_interesting`).
    fn is_interesting_fn(body: &Body, tcx: &Tcx, sm: &StateMachine<Self>) -> (r: bool)
        ensures
            r == oc_interesting(*tcx, *body),
    {
        proof {
            reveal_strlit("anchor_lang::context::Context");
        }
        if body.arg_count >= 1 && body.local_decls.len() > 1 {
            match tcx.adt_did(body.local_decls[1]) {
                Some(did) => {
                    let path = tcx.def_path_str(did);
                    if str_eq(path.as_str(), "anchor_lang::context::Context") {
                        return true;
                    }
                },
                None => {},
            }
        }
        let mut i: usize = 1;
        while i <= body.arg_count && i < body.local_decls.len()
            invariant
                1 <= i,
                forall|k: int|
                    1 <= k < i && k <= body.arg_count && k < body.local_decls@.len() ==> !slice_of_accounts(
                        *tcx,
                        #[trigger] body.local_decls@[k],
                    ),
            decreases body.local_decls@.len() - i,
        {
            if is_slice_of_accounts(tcx, body.local_decls[i]) {
                return true;
            }
            i = i + 1;
        }
        false
    }

    open spec fn spec_compute_func_flags(body: Body, tcx: Tcx, flags: Seq<bool>) -> Seq<bool> {
        flags.push(false).push(false)
    }

    open spec fn spec_compute_func(body: Body, tcx: Tcx, flags: Seq<bool>) -> Option<Self> {
        Some(OwnerCheck {
            from_owner_field: false,
            owner_id: false,
            checked: flags.len() as usize,
            data_used: (flags.len() + 1) as usize,
        })
    }

    /// Every function starts with fresh, unset flags.
    fn compute_func(body: &Body, tcx: &Tcx, sm: &mut StateMachine<Self>) -> (r: Option<Self>)
        ensures
            r == Some(OwnerCheck {
                from_owner_field: false,
                owner_id: false,
                checked: old(sm).flags().len() as usize,
                data_used: (old(sm).flags().len() + 1) as usize,
            }),
            final(sm).flags() == old(sm).flags().push(false).push(false),
    {
        let c = sm.new_flag(false);
        let d = sm.new_flag(false);
        Some(OwnerCheck { from_owner_field: false, owner_id: false, checked: c, data_used: d })
    }

    open spec fn spec_report_func(
        body: Body,
        tcx: Tcx,
        state: Self,
        func_states: Map<DefId, Self>,
        stack: Seq<DefId>,
        flags: Seq<bool>,
        before: Report,
        after: Report,
    ) -> bool {
        if oc_interesting(tcx, body) && !flag_of(flags, state.checked) && !try_accounts_checked(
            tcx,
            body,
            func_states,
            flags,
        ) {
            finding_reported(
                before,
                after,
                tcx,
                stack,
                VulnerabilityType::MissingOwnerCheck,
                def_path(tcx, body.def_id),
                or_empty(spec_source_file(tcx, body.span)),
                or_empty(spec_source_lines(tcx, body.span)),
                "UnResolved"@,
                false,
            )
        } else {
            after == before
        }
    }

    /// A function that processes accounts and whose flag says that no owner
    /// was compared is reported, unless it takes an anchor `Context` whose
    /// accounts type has a `try_accounts` that compared an owner.
    fn report_func(
        body: &Body,
        tcx: &Tcx,
        state: Self,
        sm: &mut StateMachine<Self>,
        report: &mut Report,
    )
        ensures
            *final(sm) == *old(sm),
            if oc_interesting(*tcx, *body) && !flag_of(old(sm).flags(), state.checked) && !try_accounts_checked(
                *tcx,
                *body,
                old(sm).func_states(),
                old(sm).flags(),
            ) {
                finding_reported(
                    *old(report),
                    *final(report),
                    *tcx,
                    old(sm).stack(),
                    VulnerabilityType::MissingOwnerCheck,
                    def_path(*tcx, body.def_id),
                    or_empty(spec_source_file(*tcx, body.span)),
                    or_empty(spec_source_lines(*tcx, body.span)),
                    "UnResolved"@,
                    false,
                )
            } else {
                *final(report) == *old(report)
            },
    {
        if Self::is_interesting_fn(body, tcx, sm) {
            if sm.flag(state.checked) {
                return;
            }
            if body.arg_count >= 1 && body.local_decls.len() > 1 {
                match tcx.ty(body.local_decls[1]) {
                    Some(d) => match &d.kind {
                        TyKind::Adt { did, substs } => {
                            let path = tcx.def_path_str(*did);
                            proof {
                                reveal_strlit("anchor_lang::context::Context");
                            }
                            if str_eq(path.as_str(), "anchor_lang::context::Context") && substs.len() > 0 {
                                let last = substs[substs.len() - 1];
                                match (tcx.adt_did(last), get_try_account_trait(tcx)) {
                                    (Some(account_did), Some(trait_id)) => {
                                        proof {
                                            let k = choose|k: int| 0 <= k < tcx.all_traits@.len() && tcx.all_traits@[k] == trait_id
                                                && forall|j: int| k < j < tcx.all_traits@.len() ==> def_path(*tcx, #[trigger] tcx.all_traits@[j])
                                                    != accounts_trait_path();
                                            crate::accounts::lemma_last_accounts_trait(*tcx, k);
                                        }
                                        let fns = try_accounts_fns(tcx, trait_id, account_did);
                                        let mut checked = false;
                                        let mut i: usize = 0;
                                        while i < fns.len()
                                            invariant
                                                sm.wf(),
                                                i <= fns@.len(),
                                                checked == last_checked(fns@.subrange(0, i as int), sm.func_states(), sm.flags()),
                                            decreases fns@.len() - i,
                                        {
                                            assert(fns@.subrange(0, i + 1).drop_last() =~= fns@.subrange(0, i as int));
                                            match sm.get_func_state(fns[i]) {
                                                Some(st) => {
                                                    checked = sm.flag(st.checked);
                                                },
                                                None => {},
                                            }
                                            i = i + 1;
                                        }
                                        assert(fns@.subrange(0, fns@.len() as int) =~= fns@);
                                        if checked {
                                            return;
                                        }
                                    },
                                    _ => {},
                                }
                            }
                        },
                        _ => {},
                    },
                    None => {},
                }
            }
            let code = unwrap_or_empty(get_source_file(tcx, body.span));
            let context = unwrap_or_empty(get_source_lines(tcx, body.span));
            proof {
                reveal_strlit("UnResolved");
            }
            report_finding(
                report,
                tcx,
                sm.get_call_stack(),
                VulnerabilityType::MissingOwnerCheck,
                tcx.def_path_str(body.def_id),
                code,
                context,
                String::from_str("UnResolved"),
                false,
            );
        }
    }
}

} // verus!
