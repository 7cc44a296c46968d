//! Instruction id check: the data (or lamports) of an account that comes in
//! as a parameter must only be read after the account's key was compared.

use vstd::prelude::*;
use crate::checkers::{base_of, find_nearest_state, finding_reported, nearest_state, report_finding};
use crate::checkers::bump_seed::{call_args, call_has_dest, const_callee, const_callee_exec};
use crate::checkers::model::{intercept_call, spec_intercepted};
use crate::mir::{
    adt_did, adt_of, def_path, is_arg_local, last_projection, peel_refs, peeled_adt_path, place_ty,
    place_ty_exec, symbol, Body, DefId, Operand, Place, PlaceView, ProjElem, Rvalue, Tcx,
    Terminator, TerminatorKind,
};
use crate::reporter::{callstack_formatted, report_grows, report_wf, Report, VulnerabilityType};
use crate::source_info::{get_source_lines, or_empty, spec_source_lines, unwrap_or_empty};
use crate::strs::{seq_contains, str_contains, str_eq};
use crate::wpa::{flag_of, flags_set, FullPlaceRef, FullPlaceView, StateMachine, StateTransitor};

verus! {

/// The public key type of Solana.
pub open spec fn pubkey_path() -> Seq<char> {
    "solana_program::pubkey::Pubkey"@
}

/// The public key type as Anchor re-exports it.
pub open spec fn anchor_pubkey_path() -> Seq<char> {
    "anchor_lang::prelude::Pubkey"@
}

/// The account information type of Solana.
pub open spec fn acc_info_path() -> Seq<char> {
    "solana_program::account_info::AccountInfo"@
}

/// The account information type as Anchor re-exports it.
pub open spec fn anchor_acc_info_path() -> Seq<char> {
    "anchor_lang::prelude::AccountInfo"@
}

/// Whether a value is a key, comes from a parameter, is the instructions
/// sysvar id; and the shared flags for data access and for the key check.
#[derive(Debug, Clone, Copy, PartialEq, Eq)]
pub struct InstructionIdChecker {
    pub is_key: bool,
    pub is_from_param: bool,
    pub is_inst_id: bool,
    pub access_data: usize,
    /// Shared between an account and its key, so that a check of the key
    /// marks the account as checked.
    pub checked: usize,
}

/// A state with two fresh, unset flags.
pub open spec fn ii_default(flags: Seq<bool>) -> (InstructionIdChecker, Seq<bool>) {
    (
        InstructionIdChecker {
            is_key: false,
            is_from_param: false,
            is_inst_id: false,
            access_data: flags.len() as usize,
            checked: (flags.len() + 1) as usize,
        },
        flags.push(false).push(false),
    )
}

/// The merge of two states: the flags of `b` are kept and set when those of `a` are.
pub open spec fn ii_merge(a: InstructionIdChecker, b: InstructionIdChecker, flags: Seq<bool>) -> (InstructionIdChecker, Seq<bool>) {
    let f1 = if flag_of(flags, a.access_data) { flags_set(flags, b.access_data, true) } else { flags };
    let f2 = if flag_of(f1, a.checked) { flags_set(f1, b.checked, true) } else { f1 };
    (
        InstructionIdChecker {
            is_key: a.is_key || b.is_key,
            is_from_param: a.is_from_param || b.is_from_param,
            is_inst_id: a.is_inst_id || b.is_inst_id,
            access_data: b.access_data,
            checked: b.checked,
        },
        f2,
    )
}

/// The effect of `update` at key `k` with state `t`.
pub open spec fn ii_update(
    states: Map<FullPlaceView, InstructionIdChecker>,
    flags: Seq<bool>,
    k: FullPlaceView,
    t: InstructionIdChecker,
) -> (Map<FullPlaceView, InstructionIdChecker>, Seq<bool>) {
    if states.contains_key(k) {
        let (m, f) = ii_merge(states[k], t, flags);
        (states.insert(k, m), f)
    } else {
        (states.insert(k, t), flags)
    }
}

/// The type is a public key.
pub open spec fn ii_pubkey(tcx: Tcx, t: Option<u32>) -> bool {
    match t {
        Some(t) => peeled_adt_path(tcx, t) == Some(pubkey_path()) || peeled_adt_path(tcx, t) == Some(
            anchor_pubkey_path(),
        ),
        None => false,
    }
}

/// The type is an account info.
pub open spec fn ii_account(tcx: Tcx, t: Option<u32>) -> bool {
    match t {
        Some(t) => peeled_adt_path(tcx, t) == Some(acc_info_path()) || peeled_adt_path(tcx, t) == Some(
            anchor_acc_info_path(),
        ),
        None => false,
    }
}

/// The place with its trailing dereferences removed.
pub open spec fn peels_deref(p: PlaceView) -> PlaceView
    decreases p.projection.len(),
{
    if p.projection.len() > 0 && p.projection.last() == ProjElem::Deref {
        peels_deref(base_of(p))
    } else {
        p
    }
}

/// The account that the place is a part of: the base of its last projection
/// (without dereferences), when that is an account info.
pub open spec fn base_account(tcx: Tcx, body: Body, p: PlaceView) -> Option<PlaceView> {
    if p.projection.len() > 0 {
        let b = peels_deref(base_of(p));
        if ii_account(tcx, place_ty(tcx, body, b)) { Some(b) } else { None }
    } else {
        None
    }
}

/// The field accesses of a place, innermost last: for each field projection
/// on an algebraic data type, the accessed object (without dereferences),
/// the object type's path, and the field's name (a symbol id).
pub open spec fn field_accesses(tcx: Tcx, body: Body, p: PlaceView) -> Seq<(PlaceView, Seq<char>, u32)>
    decreases p.projection.len(),
{
    if p.projection.len() == 0 {
        Seq::empty()
    } else {
        let base = base_of(p);
        let rest = field_accesses(tcx, body, base);
        match p.projection.last() {
            ProjElem::Field { field, .. } => match place_ty(tcx, body, base) {
                Some(t) => match adt_did(tcx, peel_refs(tcx, t)) {
                    Some(did) => match adt_of(tcx, did) {
                        Some(adt) => if (field as int) < adt.field_names@.len() {
                            seq![(peels_deref(base), def_path(tcx, did), adt.field_names@[field as int])]
                                + rest
                        } else {
                            rest
                        },
                        None => rest,
                    },
                    None => rest,
                },
                None => rest,
            },
            _ => rest,
        }
    }
}

/// The place reads the data or lamports of an account info that comes in
/// as a parameter and whose key was not checked.
pub open spec fn ii_unchecked_access(
    states: Map<FullPlaceView, InstructionIdChecker>,
    flags: Seq<bool>,
    tcx: Tcx,
    body: Body,
    p: PlaceView,
) -> bool {
    let acc = field_accesses(tcx, body, p);
    acc.len() > 0 && {
        let (account, ty_str, name) = acc[0];
        (symbol(tcx, name) == "data"@ || symbol(tcx, name) == "lamports"@) && (ty_str == acc_info_path()
            || ty_str == anchor_acc_info_path()) && {
            let k = FullPlaceView { func: body.def_id, place: account };
            let checked = states.contains_key(k) && flag_of(flags, states[k].checked);
            let from_param = states.contains_key(k) && states[k].is_from_param;
            !checked && from_param
        }
    }
}

/// The effect of computing the state of a place (before the access check):
/// the state, the states and the flags.
pub open spec fn ii_place(
    states: Map<FullPlaceView, InstructionIdChecker>,
    flags: Seq<bool>,
    cur: DefId,
    tcx: Tcx,
    body: Body,
    p: PlaceView,
) -> (InstructionIdChecker, Map<FullPlaceView, InstructionIdChecker>, Seq<bool>) {
    let (d, f0) = ii_default(flags);
    let k = FullPlaceView { func: body.def_id, place: p };
    let st0 = if states.contains_key(k) { states[k] } else { d };
    let f1 = match base_account(tcx, body, p) {
        Some(b) => {
            let kb = FullPlaceView { func: body.def_id, place: b };
            if states.contains_key(kb) && flag_of(f0, states[kb].checked) {
                flags_set(f0, st0.checked, true)
            } else {
                f0
            }
        },
        None => f0,
    };
    let st1 = InstructionIdChecker {
        is_from_param: st0.is_from_param || is_arg_local(body, p.local),
        ..st0
    };
    let st2 = match nearest_state(states, body.def_id, p) {
        Some(e) => InstructionIdChecker { is_from_param: st1.is_from_param || e.is_from_param, ..st1 },
        None => st1,
    };
    if ii_pubkey(tcx, place_ty(tcx, body, p)) {
        let st3 = InstructionIdChecker { is_key: true, ..st2 };
        match base_account(tcx, body, p) {
            Some(b) => {
                let (bd, f2) = ii_default(f1);
                let kb = FullPlaceView { func: body.def_id, place: b };
                let bs = if states.contains_key(kb) { states[kb] } else { bd };
                let bs2 = InstructionIdChecker { checked: st3.checked, ..bs };
                let (s3, f3) = ii_update(states, f2, FullPlaceView { func: cur, place: b }, bs2);
                (st3, s3, f3)
            },
            None => (st3, states, f1),
        }
    } else {
        (st2, states, f1)
    }
}

/// The effect on the report of an unchecked access: the call stack is
/// formatted; unless it was seen before or is blacklisted, it is formatted
/// again and the finding recorded.
pub open spec fn ii_reported(a: Report, b: Report, tcx: Tcx, stack: Seq<DefId>, body: Body, span: Option<u32>) -> bool {
    exists|mid: Report|
        #![trigger callstack_formatted(a, mid, tcx, stack)]
        callstack_formatted(a, mid, tcx, stack) && if mid.filter_result || mid.blacklist {
            b == mid
        } else {
            finding_reported(
                mid,
                b,
                tcx,
                stack,
                VulnerabilityType::MissingKeyCheck,
                def_path(tcx, body.def_id),
                or_empty(spec_source_lines(tcx, match span { Some(s) => s, None => body.span })),
                or_empty(spec_source_lines(tcx, body.span)),
                "UnResolved"@,
                false,
            )
        }
}

/// Allocates a state with two fresh, unset flags.
fn fresh(sm: &mut StateMachine<InstructionIdChecker>) -> (r: InstructionIdChecker)
    requires
        old(sm).wf(),
    ensures
        final(sm).wf(),
        (r, final(sm).flags()) == ii_default(old(sm).flags()),
        final(sm).states() == old(sm).states(),
        final(sm).func_states() == old(sm).func_states(),
        final(sm).stack() == old(sm).stack(),
{
    let a = sm.new_flag(false);
    let c = sm.new_flag(false);
    InstructionIdChecker { is_key: false, is_from_param: false, is_inst_id: false, access_data: a, checked: c }
}

/// Whether the type is a public key.
fn is_pubkey(tcx: &Tcx, t: Option<u32>) -> (r: bool)
    ensures
        r == ii_pubkey(*tcx, t),
{
    match t {
        Some(t) => match tcx.peeled_adt_path(t) {
            Some(path) => {
                proof {
                    reveal_strlit("solana_program::pubkey::Pubkey");
                    reveal_strlit("anchor_lang::prelude::Pubkey");
                }
                str_eq(path.as_str(), "solana_program::pubkey::Pubkey") || str_eq(
                    path.as_str(),
                    "anchor_lang::prelude::Pubkey",
                )
            },
            None => false,
        },
        None => false,
    }
}

/// Whether the type is an account info.
fn is_account(tcx: &Tcx, t: Option<u32>) -> (r: bool)
    ensures
        r == ii_account(*tcx, t),
{
    match t {
        Some(t) => match tcx.peeled_adt_path(t) {
            Some(path) => {
                proof {
                    reveal_strlit("solana_program::account_info::AccountInfo");
                    reveal_strlit("anchor_lang::prelude::AccountInfo");
                }
                str_eq(path.as_str(), "solana_program::account_info::AccountInfo") || str_eq(
                    path.as_str(),
                    "anchor_lang::prelude::AccountInfo",
                )
            },
            None => false,
        },
        None => false,
    }
}

/// The place with its trailing dereferences removed.
pub fn peels_deref_exec(place: &Place) -> (r: Place)
    ensures
        r@ == peels_deref(place@),
{
    let mut cur = place.copy_place();
    loop
        invariant
            peels_deref(cur@) == peels_deref(place@),
        decreases cur@.projection.len(),
    {
        let n = cur.projection.len();
        if n > 0 {
            match cur.projection[n - 1] {
                ProjElem::Deref => {
                    match cur.last_projection() {
                        Some((base, _)) => {
                            cur = base;
                            continue;
                        },
                        None => {},
                    }
                },
                _ => {},
            }
        }
        return cur;
    }
}

/// The account info that the place is a part of, if any.
pub fn get_base_account(place: &Place, body: &Body, tcx: &Tcx) -> (r: Option<Place>)
    ensures
        match r {
            Some(b) => base_account(*tcx, *body, place@) == Some(b@),
            None => base_account(*tcx, *body, place@).is_none(),
        },
{
    match place.last_projection() {
        Some((base, _field)) => {
            let base = peels_deref_exec(&base);
            if is_account(tcx, place_ty_exec(tcx, body, &base)) {
                Some(base)
            } else {
                None
            }
        },
        None => None,
    }
}

/// The field accesses of a place, innermost last.
pub fn parse_field_names(place: &Place, body: &Body, tcx: &Tcx) -> (r: Vec<(Place, String, u32)>)
    ensures
        r@.len() == field_accesses(*tcx, *body, place@).len(),
        forall|i: int|
            0 <= i < r@.len() ==> {
                let (p, s, n) = #[trigger] r@[i];
                (p@, s@, n) == field_accesses(*tcx, *body, place@)[i]
            },
{
    let mut cur = place.copy_place();
    let mut res: Vec<(Place, String, u32)> = Vec::new();
    loop
        invariant
            field_accesses(*tcx, *body, place@) == {
                let mapped = res@.map_values(|e: (Place, String, u32)| (e.0@, e.1@, e.2));
                mapped + field_accesses(*tcx, *body, cur@)
            },
        decreases cur@.projection.len(),
    {
        let ghost res0 = res@;
        match cur.last_projection() {
            Some((base, proj)) => {
                proof {
                    assert(base@ == base_of(cur@));
                }
                match proj {
                    ProjElem::Field { field, .. } => {
                        match place_ty_exec(tcx, body, &base) {
                            Some(t) => {
                                let pt = tcx.peel_refs(t);
                                match tcx.adt_did(pt) {
                                    Some(did) => match tcx.adt_def(did) {
                                        Some(adt) => {
                                            if (field as usize) < adt.field_names.len() {
                                                let name = adt.field_names[field as usize];
                                                let obj = peels_deref_exec(&base);
                                                let ty_str = tcx.def_path_str(did);
                                                res.push((obj, ty_str, name));
                                            }
                                        },
                                        None => {},
                                    },
                                    None => {},
                                }
                            },
                            None => {},
                        }
                    },
                    _ => {},
                }
                proof {
                    let mapped0 = res0.map_values(|e: (Place, String, u32)| (e.0@, e.1@, e.2));
                    let mapped1 = res@.map_values(|e: (Place, String, u32)| (e.0@, e.1@, e.2));
                    if res@.len() > res0.len() {
                        assert(mapped1 =~= mapped0.push(mapped1.last()));
                        assert(mapped0 + field_accesses(*tcx, *body, cur@) =~= mapped1 + field_accesses(*tcx, *body, base@));
                    } else {
                        assert(mapped1 =~= mapped0);
                    }
                }
                cur = base;
            },
            None => {
                proof {
                    let mapped = res@.map_values(|e: (Place, String, u32)| (e.0@, e.1@, e.2));
                    assert(mapped + field_accesses(*tcx, *body, cur@) =~= mapped);
                }
                return res;
            },
        }
    }
}

/// The effect on the states and flags of marking the place of an operand
/// as checked: the place's state is computed, its flag set, and the state
/// stored for the place in the current function. A constant changes nothing.
pub open spec fn ii_mark_checked(
    states: Map<FullPlaceView, InstructionIdChecker>,
    flags: Seq<bool>,
    cur: DefId,
    tcx: Tcx,
    body: Body,
    op: Operand,
) -> (Map<FullPlaceView, InstructionIdChecker>, Seq<bool>) {
    match op {
        Operand::Copy(p) => ii_mark_place(states, flags, cur, tcx, body, p@),
        Operand::Move(p) => ii_mark_place(states, flags, cur, tcx, body, p@),
        Operand::Constant(_) => (states, flags),
    }
}

/// The effect of marking a place as checked.
pub open spec fn ii_mark_place(
    states: Map<FullPlaceView, InstructionIdChecker>,
    flags: Seq<bool>,
    cur: DefId,
    tcx: Tcx,
    body: Body,
    p: PlaceView,
) -> (Map<FullPlaceView, InstructionIdChecker>, Seq<bool>) {
    let (st, s1, f1) = ii_place(states, flags, cur, tcx, body, p);
    ii_update(s1, flags_set(f1, st.checked, true), FullPlaceView { func: cur, place: p }, st)
}

/// Marking a place as checked keeps every state there was.
proof fn lemma_mark_keeps(
    states: Map<FullPlaceView, InstructionIdChecker>,
    flags: Seq<bool>,
    cur: DefId,
    tcx: Tcx,
    body: Body,
    op: Operand,
)
    ensures
        crate::wpa::states_kept(states, ii_mark_checked(states, flags, cur, tcx, body, op).0),
        crate::wpa::changes_only(states, ii_mark_checked(states, flags, cur, tcx, body, op).0, cur),
{
    match op {
        Operand::Copy(p) => {
            let (st, s1, f1) = ii_place(states, flags, cur, tcx, body, p@);
            assert(crate::wpa::states_kept(states, s1));
            assert(crate::wpa::changes_only(states, s1, cur));
        },
        Operand::Move(p) => {
            let (st, s1, f1) = ii_place(states, flags, cur, tcx, body, p@);
            assert(crate::wpa::states_kept(states, s1));
            assert(crate::wpa::changes_only(states, s1, cur));
        },
        Operand::Constant(_) => {},
    }
}

/// The effect on the report of computing the state of a place: an
/// unchecked access is reported (see `ii_reported`).
pub open spec fn ii_place_reported(
    a: Report,
    b: Report,
    states: Map<FullPlaceView, InstructionIdChecker>,
    flags: Seq<bool>,
    stack: Seq<DefId>,
    tcx: Tcx,
    body: Body,
    p: PlaceView,
    span: Option<u32>,
) -> bool {
    let (_st, s1, f1) = ii_place(states, flags, stack.last(), tcx, body, p);
    if ii_unchecked_access(s1, f1, tcx, body, p) {
        ii_reported(a, b, tcx, stack, body, span)
    } else {
        b == a
    }
}

/// The state of the value of an operand: that of its place, or, for a
/// constant, a fresh state that is a key and an instruction id when the
/// constant is a public key.
pub open spec fn ii_operand(
    states: Map<FullPlaceView, InstructionIdChecker>,
    flags: Seq<bool>,
    cur: DefId,
    tcx: Tcx,
    body: Body,
    op: Operand,
) -> InstructionIdChecker {
    match op {
        Operand::Copy(p) => ii_place(states, flags, cur, tcx, body, p@).0,
        Operand::Move(p) => ii_place(states, flags, cur, tcx, body, p@).0,
        Operand::Constant(c) => InstructionIdChecker {
            is_key: ii_pubkey(tcx, Some(c.ty)),
            is_inst_id: ii_pubkey(tcx, Some(c.ty)),
            ..ii_default(flags).0
        },
    }
}

/// A comparison of two operands: `eq`, `ne`, or a function whose path holds
/// `cmp_pubkeys`.
pub open spec fn ii_cmp_call(tcx: Tcx, t: Terminator) -> bool {
    const_callee(tcx, t) matches Some(f) && (def_path(tcx, f) == "std::cmp::PartialEq::eq"@
        || def_path(tcx, f) == "std::cmp::PartialEq::ne"@ || seq_contains(def_path(tcx, f), "cmp_pubkeys"@))
        && call_args(t).len() == 2
}

/// A call of the instructions sysvar id with a destination.
pub open spec fn ii_inst_id_call(tcx: Tcx, t: Terminator) -> bool {
    const_callee(tcx, t) matches Some(f) && def_path(tcx, f)
        == "solana_program::sysvar::instructions::id"@ && call_has_dest(t)
}

/// A call, with arguments, of a function whose result takes the state of
/// an argument (see `spec_intercepted`).
pub open spec fn ii_intercepted_call(tcx: Tcx, t: Terminator) -> bool {
    const_callee(tcx, t) matches Some(f) && spec_intercepted(def_path(tcx, f)) is Some
        && call_args(t).len() > 0
}

/// The path of the instructions sysvar id is neither comparison and holds
/// no `cmp_pubkeys`.
proof fn lemma_inst_id_not_cmp_key()
    ensures
        !seq_contains("solana_program::sysvar::instructions::id"@, "cmp_pubkeys"@),
        "solana_program::sysvar::instructions::id"@ != "std::cmp::PartialEq::eq"@,
        "solana_program::sysvar::instructions::id"@ != "std::cmp::PartialEq::ne"@,
{
    reveal_strlit("solana_program::sysvar::instructions::id");
    reveal_strlit("cmp_pubkeys");
    reveal_strlit("std::cmp::PartialEq::eq");
    reveal_strlit("std::cmp::PartialEq::ne");
    let s = "solana_program::sysvar::instructions::id"@;
    let p = "cmp_pubkeys"@;
    assert(s[1] != "std::cmp::PartialEq::eq"@[1]);
    assert(s[1] != "std::cmp::PartialEq::ne"@[1]);
    assert forall|i: int| !#[trigger] crate::strs::occurs_at(s, p, i) by {
        if crate::strs::occurs_at(s, p, i) {
            assert(s.subrange(i, i + p.len())[0] == p[0]);
            assert(s.subrange(i, i + p.len())[1] == p[1]);
            assert(s[i] == 'c' && s[i + 1] == 'm');
            assert(false);
        }
    }
}

impl InstructionIdChecker {
    /// A state with two fresh, unset flags.
    pub fn get_default(sm: &mut StateMachine<Self>) -> (r: Self)
        requires
            old(sm).wf(),
        ensures
            final(sm).wf(),
            (r, final(sm).flags()) == ii_default(old(sm).flags()),
            final(sm).states() == old(sm).states(),
            final(sm).func_states() == old(sm).func_states(),
            final(sm).stack() == old(sm).stack(),
    {
        fresh(sm)
    }

    /// Updates the state of a place of the function being analysed.
    fn update(sm: &mut StateMachine<Self>, place: &Place, t: Self, body: &Body, tcx: &Tcx)
        requires
            old(sm).wf(),
            old(sm).stack().len() > 0,
        ensures
            final(sm).wf(),
            (final(sm).states(), final(sm).flags()) == ii_update(
                old(sm).states(),
                old(sm).flags(),
                FullPlaceView { func: old(sm).stack().last(), place: place@ },
                t,
            ),
            final(sm).func_states() == old(sm).func_states(),
            final(sm).stack() == old(sm).stack(),
    {
        let full = FullPlaceRef::new(sm.get_cur_func(), place.copy_place());
        match sm.get_state(&full) {
            Some(old_st) => {
                let old_st = *old_st;
                let merged = old_st.merge(t, body, tcx, sm);
                sm.store(full, merged);
            },
            None => {
                sm.store(full, t);
            },
        }
    }

    /// Marks the place of an operand as checked.
    fn update_checked(
        op: &Operand,
        body: &Body,
        tcx: &Tcx,
        sm: &mut StateMachine<Self>,
        report: &mut Report,
        span: u32,
    )
        requires
            old(sm).wf(),
            old(sm).stack().len() > 0,
            report_wf(*old(report)),
        ensures
            final(sm).wf(),
            final(sm).func_states() == old(sm).func_states(),
            final(sm).stack() == old(sm).stack(),
            report_grows(*old(report), *final(report)),
            (final(sm).states(), final(sm).flags()) == ii_mark_checked(
                old(sm).states(),
                old(sm).flags(),
                old(sm).stack().last(),
                *tcx,
                *body,
                *op,
            ),
            match *op {
                Operand::Copy(p) => ii_place_reported(*old(report), *final(report), old(sm).states(), old(sm).flags(), old(sm).stack(), *tcx, *body, p@, Some(span)),
                Operand::Move(p) => ii_place_reported(*old(report), *final(report), old(sm).states(), old(sm).flags(), old(sm).stack(), *tcx, *body, p@, Some(span)),
                Operand::Constant(_) => *final(report) == *old(report),
            },
    {
        match op {
            Operand::Copy(from) | Operand::Move(from) => {
                let from_st = Self::compute_place(from, body, tcx, sm, report, Some(span));
                sm.set_flag(from_st.checked, true);
                Self::update(sm, from, from_st, body, tcx);
            },
            Operand::Constant(_) => {},
        }
    }
}

impl StateTransitor for InstructionIdChecker {
    open spec fn rvalue_step(
        rvalue: Rvalue,
        body: Body,
        tcx: Tcx,
        span: u32,
        sa: crate::wpa::SmState<Self>,
        ra: Report,
        r: Self,
        sb: crate::wpa::SmState<Self>,
        rb: Report,
    ) -> bool {
        &&& (match rvalue {
                    Rvalue::Use(op) => match op {
                        Operand::Constant(c) => rb == ra && (r, sb.flags) == (
                        InstructionIdChecker {
                            is_key: ii_pubkey(tcx, Some(c.ty)),
                            is_inst_id: ii_pubkey(tcx, Some(c.ty)),
                            ..ii_default(sa.flags).0
                        }, ii_default(sa.flags).1),
                        _ => true,
                    },
                    Rvalue::Ref(_) => true,
                    _ => rb == ra && (r, sb.states, sb.flags) == (
                    ii_default(sa.flags).0, sa.states, ii_default(sa.flags).1),
                })
    }

    open spec fn operand_step(
        op: Operand,
        body: Body,
        tcx: Tcx,
        span: u32,
        sa: crate::wpa::SmState<Self>,
        ra: Report,
        r: Self,
        sb: crate::wpa::SmState<Self>,
        rb: Report,
    ) -> bool {
        &&& (match op {
                    Operand::Constant(c) => rb == ra && sb.states == sa.states
                        && (r, sb.flags) == (InstructionIdChecker {
                        is_key: ii_pubkey(tcx, Some(c.ty)),
                        is_inst_id: ii_pubkey(tcx, Some(c.ty)),
                        ..ii_default(sa.flags).0
                    }, ii_default(sa.flags).1),
                    Operand::Copy(p) => (r, sb.states, sb.flags) == ii_place(
                        sa.states,
                        sa.flags,
                        sa.stack.last(),
                        tcx,
                        body,
                        p@,
                    ) && ii_place_reported(ra, rb, sa.states, sa.flags, sa.stack, tcx, body, p@, Some(span)),
                    Operand::Move(p) => (r, sb.states, sb.flags) == ii_place(
                        sa.states,
                        sa.flags,
                        sa.stack.last(),
                        tcx,
                        body,
                        p@,
                    ) && ii_place_reported(ra, rb, sa.states, sa.flags, sa.stack, tcx, body, p@, Some(span)),
                })
    }

    open spec fn place_step(
        place: crate::mir::PlaceView,
        body: Body,
        tcx: Tcx,
        span: Option<u32>,
        sa: crate::wpa::SmState<Self>,
        ra: Report,
        r: Self,
        sb: crate::wpa::SmState<Self>,
        rb: Report,
    ) -> bool {
        &&& ((r, sb.states, sb.flags) == ii_place(
                    sa.states,
                    sa.flags,
                    sa.stack.last(),
                    tcx,
                    body,
                    place,
                ))
        &&& (if ii_unchecked_access(sb.states, sb.flags, tcx, body, place) {
                    ii_reported(ra, rb, tcx, sa.stack, body, span)
                } else {
                    rb == ra
                })
    }

    open spec fn init_step(
        place: crate::mir::PlaceView,
        body: Body,
        tcx: Tcx,
        sa: crate::wpa::SmState<Self>,
        ra: Report,
        r: Self,
        sb: crate::wpa::SmState<Self>,
        rb: Report,
    ) -> bool {
        &&& (rb == ra)
        &&& (sb.states == sa.states)
        &&& ((r, sb.flags) == ii_default(sa.flags))
    }

    open spec fn terminator_step(
        terminator: Terminator,
        body: Body,
        tcx: Tcx,
        span: u32,
        sa: crate::wpa::SmState<Self>,
        ra: Report,
        r: Self,
        sb: crate::wpa::SmState<Self>,
        rb: Report,
    ) -> bool {
        &&& (const_callee(tcx, terminator) is None ==> {
                    &&& (r, sb.flags) == ii_default(sa.flags)
                    &&& sb.states == sa.states
                    &&& rb == ra
                })
        &&& ((const_callee(tcx, terminator) is Some && def_path(tcx, const_callee(tcx, terminator)->0)
                    == "solana_program::sysvar::instructions::id"@ && call_args(terminator).len() == 0
                    && call_has_dest(terminator)) ==> {
                    &&& r == (InstructionIdChecker { is_inst_id: true, ..ii_default(sa.flags).0 })
                    &&& sb.flags == ii_default(sa.flags).1
                    &&& sb.states == sa.states
                    &&& rb == ra
                })
        &&& (ii_inst_id_call(tcx, terminator) ==> exists|f: Seq<bool>|
                    r == (InstructionIdChecker { is_inst_id: true, ..#[trigger] ii_default(f).0 })
                        && sb.flags == ii_default(f).1)
        &&& (!ii_inst_id_call(tcx, terminator) && ii_intercepted_call(tcx, terminator) ==> r
                    == ii_operand(
                    sa.states,
                    sa.flags,
                    sa.stack.last(),
                    tcx,
                    body,
                    call_args(terminator)[0],
                ))
        &&& (({
                    let st1 = ii_operand(
                        sa.states,
                        sa.flags,
                        sa.stack.last(),
                        tcx,
                        body,
                        call_args(terminator)[0],
                    );
                    ii_cmp_call(tcx, terminator) && st1.is_key && st1.is_from_param ==> match call_args(
                        terminator,
                    )[0] {
                        Operand::Copy(p) => sb.states.contains_key(
                            FullPlaceView { func: sa.stack.last(), place: p@ },
                        ),
                        Operand::Move(p) => sb.states.contains_key(
                            FullPlaceView { func: sa.stack.last(), place: p@ },
                        ),
                        Operand::Constant(_) => true,
                    }
                }))
        &&& (const_callee(tcx, terminator) is Some && !ii_inst_id_call(tcx, terminator)
                    && !ii_intercepted_call(tcx, terminator) ==> exists|f: Seq<bool>|
                    (r, sb.flags) == #[trigger] ii_default(f))
    }

    open spec fn spec_report_func(
        body: Body,
        tcx: Tcx,
        state: Self,
        func_states: Map<crate::mir::DefId, Self>,
        stack: Seq<crate::mir::DefId>,
        flags: Seq<bool>,
        before: Report,
        after: Report,
    ) -> bool {
        after == before
    }

    /// This analysis reports nothing once a function has been analysed.
    fn report_func(
        body: &Body,
        tcx: &Tcx,
        state: Self,
        sm: &mut StateMachine<Self>,
        report: &mut Report,
    )
        ensures
            *final(sm) == *old(sm),
            *final(report) == *old(report),
    {
    }

    open spec fn spec_merge(self, other: Self, tcx: Tcx, flags: Seq<bool>) -> Self {
        ii_merge(self, other, flags).0
    }

    open spec fn spec_merge_flags(self, other: Self, flags: Seq<bool>) -> Seq<bool> {
        ii_merge(self, other, flags).1
    }

    fn dup(&self) -> (r: Self) {
        *self
    }

    fn compute_rvalue(
        rvalue: &Rvalue,
        body: &Body,
        tcx: &Tcx,
        sm: &mut StateMachine<Self>,
        report: &mut Report,
        span: u32,
    ) -> (r: Self)
        ensures
            match *rvalue {
                Rvalue::Use(op) => match op {
                    Operand::Constant(c) => *final(report) == *old(report) && (r, final(sm).flags()) == (
                    InstructionIdChecker {
                        is_key: ii_pubkey(*tcx, Some(c.ty)),
                        is_inst_id: ii_pubkey(*tcx, Some(c.ty)),
                        ..ii_default(old(sm).flags()).0
                    }, ii_default(old(sm).flags()).1),
                    _ => true,
                },
                Rvalue::Ref(_) => true,
                _ => *final(report) == *old(report) && (r, final(sm).states(), final(sm).flags()) == (
                ii_default(old(sm).flags()).0, old(sm).states(), ii_default(old(sm).flags()).1),
            },
    {
        match rvalue {
            Rvalue::Use(op) => {
                return Self::compute_operand(op, body, tcx, sm, report, span);
            },
            Rvalue::Ref(place) => {
                return Self::compute_place(place, body, tcx, sm, report, Some(span));
            },
            _ => {},
        }
        fresh(sm)
    }

    fn compute_operand(
        op: &Operand,
        body: &Body,
        tcx: &Tcx,
        sm: &mut StateMachine<Self>,
        report: &mut Report,
        span: u32,
    ) -> (r: Self)
        ensures
            match *op {
                Operand::Constant(c) => *final(report) == *old(report) && final(sm).states() == old(sm).states()
                    && (r, final(sm).flags()) == (InstructionIdChecker {
                    is_key: ii_pubkey(*tcx, Some(c.ty)),
                    is_inst_id: ii_pubkey(*tcx, Some(c.ty)),
                    ..ii_default(old(sm).flags()).0
                }, ii_default(old(sm).flags()).1),
                Operand::Copy(p) => (r, final(sm).states(), final(sm).flags()) == ii_place(
                    old(sm).states(),
                    old(sm).flags(),
                    old(sm).stack().last(),
                    *tcx,
                    *body,
                    p@,
                ) && ii_place_reported(*old(report), *final(report), old(sm).states(), old(sm).flags(), old(sm).stack(), *tcx, *body, p@, Some(span)),
                Operand::Move(p) => (r, final(sm).states(), final(sm).flags()) == ii_place(
                    old(sm).states(),
                    old(sm).flags(),
                    old(sm).stack().last(),
                    *tcx,
                    *body,
                    p@,
                ) && ii_place_reported(*old(report), *final(report), old(sm).states(), old(sm).flags(), old(sm).stack(), *tcx, *body, p@, Some(span)),
            },
    {
        match op {
            Operand::Copy(place) | Operand::Move(place) => Self::compute_place(
                place,
                body,
                tcx,
                sm,
                report,
                Some(span),
            ),
            Operand::Constant(c) => {
                let mut st = fresh(sm);
                if is_pubkey(tcx, Some(c.ty)) {
                    st.is_key = true;
                    st.is_inst_id = true;
                }
                st
            },
        }
    }

    /// The state of a place; a read of the data or lamports of an account
    /// info from a parameter whose key was not checked is reported.
    fn compute_place(
        place: &Place,
        body: &Body,
        tcx: &Tcx,
        sm: &mut StateMachine<Self>,
        report: &mut Report,
        span: Option<u32>,
    ) -> (r: Self)
        ensures
            (r, final(sm).states(), final(sm).flags()) == ii_place(
                old(sm).states(),
                old(sm).flags(),
                old(sm).stack().last(),
                *tcx,
                *body,
                place@,
            ),
            if ii_unchecked_access(final(sm).states(), final(sm).flags(), *tcx, *body, place@) {
                ii_reported(*old(report), *final(report), *tcx, old(sm).stack(), *body, span)
            } else {
                *final(report) == *old(report)
            },
    {
        let ghost states0 = sm.states();
        let ghost flags0 = sm.flags();
        let mut st = fresh(sm);
        let fp = FullPlaceRef::new(body.def_id, place.copy_place());
        match sm.get_state(&fp) {
            Some(existing) => {
                st = *existing;
            },
            None => {},
        }
        let base_acc = get_base_account(place, body, tcx);
        match &base_acc {
            Some(base) => {
                let fb = FullPlaceRef::new(body.def_id, base.copy_place());
                let base_checked = match sm.get_state(&fb) {
                    Some(base_st) => sm.flag(base_st.checked),
                    None => false,
                };
                if base_checked {
                    sm.set_flag(st.checked, true);
                }
            },
            None => {},
        }
        let local_index = place.local as usize;
        if 1usize <= local_index && local_index <= body.arg_count {
            st.is_from_param = true;
        }
        let near_from_param = match find_nearest_state(sm, body.def_id, place) {
            Some(e) => Some(e.is_from_param),
            None => None,
        };
        match near_from_param {
            Some(b) => {
                st.is_from_param = st.is_from_param || b;
            },
            None => {},
        }
        if is_pubkey(tcx, place_ty_exec(tcx, body, place)) {
            st.is_key = true;
            match &base_acc {
                Some(base) => {
                    let mut base_st = fresh(sm);
                    let fb = FullPlaceRef::new(body.def_id, base.copy_place());
                    match sm.get_state(&fb) {
                        Some(existing) => {
                            base_st = *existing;
                        },
                        None => {},
                    }
                    base_st.checked = st.checked;
                    Self::update(sm, base, base_st, body, tcx);
                },
                None => {},
            }
        }
        proof {
            reveal_strlit("data");
            reveal_strlit("lamports");
            reveal_strlit("solana_program::account_info::AccountInfo");
            reveal_strlit("anchor_lang::prelude::AccountInfo");
            reveal_strlit("UnResolved");
        }
        let accesses = parse_field_names(place, body, tcx);
        if accesses.len() > 0 {
            let (account_place, ty_str, field_name) = &accesses[0];
            let name = tcx.symbol_str(*field_name);
            if (str_eq(name.as_str(), "data") || str_eq(name.as_str(), "lamports")) && (str_eq(
                ty_str.as_str(),
                "solana_program::account_info::AccountInfo",
            ) || str_eq(ty_str.as_str(), "anchor_lang::prelude::AccountInfo")) {
                let fa = FullPlaceRef::new(body.def_id, account_place.copy_place());
                let (account_checked, account_from_param) = match sm.get_state(&fa) {
                    Some(ast) => (sm.flag(ast.checked), ast.is_from_param),
                    None => (false, false),
                };
                if !account_checked && account_from_param {
                    let _first = report.call_stack_formatter(tcx, sm.get_call_stack());
                    let ghost mid = *report;
                    if !report.get_filtered() && !report.get_blacklist() {
                        let use_span = match span {
                            Some(s) => s,
                            None => body.span,
                        };
                        let code = unwrap_or_empty(get_source_lines(tcx, use_span));
                        let context = unwrap_or_empty(get_source_lines(tcx, body.span));
                        report_finding(
                            report,
                            tcx,
                            sm.get_call_stack(),
                            VulnerabilityType::MissingKeyCheck,
                            tcx.def_path_str(body.def_id),
                            code,
                            context,
                            String::from_str("UnResolved"),
                            false,
                        );
                    }
                }
            }
        }
        st
    }

    fn init_place(
        place: &Place,
        body: &Body,
        tcx: &Tcx,
        sm: &mut StateMachine<Self>,
        report: &mut Report,
    ) -> (r: Self)
        ensures
            *final(report) == *old(report),
            final(sm).states() == old(sm).states(),
            (r, final(sm).flags()) == ii_default(old(sm).flags()),
    {
        fresh(sm)
    }

    fn merge(&self, other: Self, body: &Body, tcx: &Tcx, sm: &mut StateMachine<Self>) -> (r: Self) {
        if sm.flag(self.access_data) {
            sm.set_flag(other.access_data, true);
        }
        if sm.flag(self.checked) {
            sm.set_flag(other.checked, true);
        }
        InstructionIdChecker {
            is_key: self.is_key || other.is_key,
            is_from_param: self.is_from_param || other.is_from_param,
            is_inst_id: self.is_inst_id || other.is_inst_id,
            access_data: other.access_data,
            checked: other.checked,
        }
    }

    /// A comparison of keys from parameters marks them as checked; the result
    /// of the instructions sysvar id is an instruction id; an intercepted call
    /// passes the state of its argument on.
    #[verifier::rlimit(50)]
    fn compute_terminator(
        terminator: &Terminator,
        body: &Body,
        tcx: &Tcx,
        sm: &mut StateMachine<Self>,
        report: &mut Report,
        span: u32,
    ) -> (r: Self)
        ensures
            const_callee(*tcx, *terminator) is None ==> {
                &&& (r, final(sm).flags()) == ii_default(old(sm).flags())
                &&& final(sm).states() == old(sm).states()
                &&& *final(report) == *old(report)
            },
            (const_callee(*tcx, *terminator) is Some && def_path(*tcx, const_callee(*tcx, *terminator)->0)
                == "solana_program::sysvar::instructions::id"@ && call_args(*terminator).len() == 0
                && call_has_dest(*terminator)) ==> {
                &&& r == (InstructionIdChecker { is_inst_id: true, ..ii_default(old(sm).flags()).0 })
                &&& final(sm).flags() == ii_default(old(sm).flags()).1
                &&& final(sm).states() == old(sm).states()
                &&& *final(report) == *old(report)
            },
            ii_inst_id_call(*tcx, *terminator) ==> exists|f: Seq<bool>|
                r == (InstructionIdChecker { is_inst_id: true, ..#[trigger] ii_default(f).0 })
                    && final(sm).flags() == ii_default(f).1,
            !ii_inst_id_call(*tcx, *terminator) && ii_intercepted_call(*tcx, *terminator) ==> r
                == ii_operand(
                old(sm).states(),
                old(sm).flags(),
                old(sm).stack().last(),
                *tcx,
                *body,
                call_args(*terminator)[0],
            ),
            ({
                let st1 = ii_operand(
                    old(sm).states(),
                    old(sm).flags(),
                    old(sm).stack().last(),
                    *tcx,
                    *body,
                    call_args(*terminator)[0],
                );
                ii_cmp_call(*tcx, *terminator) && st1.is_key && st1.is_from_param ==> match call_args(
                    *terminator,
                )[0] {
                    Operand::Copy(p) => final(sm).states().contains_key(
                        FullPlaceView { func: old(sm).stack().last(), place: p@ },
                    ),
                    Operand::Move(p) => final(sm).states().contains_key(
                        FullPlaceView { func: old(sm).stack().last(), place: p@ },
                    ),
                    Operand::Constant(_) => true,
                }
            }),
            const_callee(*tcx, *terminator) is Some && !ii_inst_id_call(*tcx, *terminator)
                && !ii_intercepted_call(*tcx, *terminator) ==> exists|f: Seq<bool>|
                (r, final(sm).flags()) == #[trigger] ii_default(f),
    {
        proof {
            lemma_inst_id_not_cmp_key();
            reveal_strlit("std::cmp::PartialEq::ne");
            reveal_strlit("std::cmp::PartialEq::eq");
            reveal_strlit("cmp_pubkeys");
            reveal_strlit("solana_program::sysvar::instructions::id");
        }
        match const_callee_exec(tcx, terminator) {
            Some(f) => {
                let func_name = tcx.def_path_str(f);
                match &terminator.kind {
                    TerminatorKind::Call { args, destination, .. } => {
                        let mut arg_states: Vec<Self> = Vec::new();
                        let mut i: usize = 0;
                        while i < args.len()
                            invariant
                                sm.wf(),
                                sm.stack().len() > 0,
                                sm.stack() == old(sm).stack(),
                                sm.func_states() == old(sm).func_states(),
                                report_grows(*old(report), *report),
                                i <= args@.len(),
                                arg_states@.len() == i,
                                i == 0 ==> *sm == *old(sm) && *report == *old(report),
                                crate::wpa::states_kept(old(sm).states(), sm.states()),
                                crate::wpa::changes_only(old(sm).states(), sm.states(), old(sm).stack().last()),
                                i > 0 ==> arg_states@[0] == ii_operand(
                                    old(sm).states(),
                                    old(sm).flags(),
                                    old(sm).stack().last(),
                                    *tcx,
                                    *body,
                                    args@[0],
                                ),
                            decreases args@.len() - i,
                        {
                            let st = Self::compute_operand(&args[0], body, tcx, sm, report, span);
                            arg_states.push(st);
                            i = i + 1;
                        }
                        if str_eq(func_name.as_str(), "std::cmp::PartialEq::eq") || str_eq(
                            func_name.as_str(),
                            "std::cmp::PartialEq::ne",
                        ) || str_contains(func_name.as_str(), "cmp_pubkeys") {
                            if args.len() == 2 {
                                let st1 = arg_states[0];
                                let st2 = arg_states[1];
                                if st1.is_key && st1.is_from_param {
                                    let ghost m0 = *sm;
                                    Self::update_checked(&args[0], body, tcx, sm, report, span);
                                    proof {
                                        lemma_mark_keeps(m0.states(), m0.flags(), m0.stack().last(), *tcx, *body, args@[0]);
                                    }
                                }
                                if st2.is_key && st2.is_from_param {
                                    let ghost m1 = *sm;
                                    Self::update_checked(&args[1], body, tcx, sm, report, span);
                                    proof {
                                        lemma_mark_keeps(m1.states(), m1.flags(), m1.stack().last(), *tcx, *body, args@[1]);
                                    }
                                }
                            }
                        } else if str_eq(func_name.as_str(), "solana_program::sysvar::instructions::id") {
                            if destination.is_some() {
                                let ghost f0 = sm.flags();
                                let mut st = fresh(sm);
                                st.is_inst_id = true;
                                proof {
                                    assert(st == (InstructionIdChecker { is_inst_id: true, ..ii_default(f0).0 }));
                                }
                                return st;
                            }
                        }
                        let ghost s_after = sm.states();
                        match intercept_call(f, tcx) {
                            Some(indices) => {
                                if indices.len() > 0 && indices[0] < arg_states.len() {
                                    let mut res = arg_states[indices[0]];
                                    let mut j: usize = 1;
                                    let mut ok = true;
                                    while j < indices.len()
                                        invariant
                                            sm.wf(),
                                            sm.stack() == old(sm).stack(),
                                            sm.func_states() == old(sm).func_states(),
                                            report_grows(*old(report), *report),
                                            arg_states@.len() == args@.len(),
                                            crate::wpa::states_kept(old(sm).states(), sm.states()),
                                            crate::wpa::changes_only(old(sm).states(), sm.states(), old(sm).stack().last()),
                                            1 <= j <= indices@.len(),
                                            crate::wpa::states_kept(s_after, sm.states()),
                                            indices@ == seq![0usize] ==> ok && res == arg_states@[0],
                                        decreases indices@.len() - j,
                                    {
                                        if indices[j] < arg_states.len() {
                                            res = res.merge(arg_states[indices[j]], body, tcx, sm);
                                        } else {
                                            ok = false;
                                        }
                                        j = j + 1;
                                    }
                                    if ok {
                                        return res;
                                    }
                                }
                            },
                            None => {},
                        }
                    },
                    _ => {},
                }
            },
            None => {},
        }
        let ghost f_end = sm.flags();
        let r = fresh(sm);
        proof {
            assert((r, sm.flags()) == ii_default(f_end));
        }
        r
    }

    /// A function that has a variable named `accs` or `accounts`.
    fn is_interesting_fn(body: &Body, tcx: &Tcx, sm: &StateMachine<Self>) -> (r: bool)
        ensures
            r == exists|i: int|
                0 <= i < body.var_debug_info@.len() && (symbol(*tcx, #[trigger] body.var_debug_info@[i].name) == "accs"@
                    || symbol(*tcx, body.var_debug_info@[i].name) == "accounts"@),
    {
        proof {
            reveal_strlit("accs");
            reveal_strlit("accounts");
        }
        let mut i: usize = 0;
        while i < body.var_debug_info.len()
            invariant
                i <= body.var_debug_info@.len(),
                forall|k: int|
                    0 <= k < i ==> !(symbol(*tcx, #[trigger] body.var_debug_info@[k].name) == "accs"@
                        || symbol(*tcx, body.var_debug_info@[k].name) == "accounts"@),
            decreases body.var_debug_info@.len() - i,
        {
            let name = tcx.symbol_str(body.var_debug_info[i].name);
            if str_eq(name.as_str(), "accs") || str_eq(name.as_str(), "accounts") {
                return true;
            }
            i = i + 1;
        }
        false
    }

    /// Every function starts with a fresh state.
    open spec fn spec_compute_func_flags(body: Body, tcx: Tcx, flags: Seq<bool>) -> Seq<bool> {
        ii_default(flags).1
    }

    open spec fn spec_compute_func(body: Body, tcx: Tcx, flags: Seq<bool>) -> Option<Self> {
        Some(ii_default(flags).0)
    }

    fn compute_func(body: &Body, tcx: &Tcx, sm: &mut StateMachine<Self>) -> (r: Option<Self>)
        ensures
            r.is_some(),
            (r.unwrap(), final(sm).flags()) == ii_default(old(sm).flags()),
    {
        Some(fresh(sm))
    }
}

} // verus!
