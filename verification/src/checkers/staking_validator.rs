//! Staking validator check: the vote account key passed to
//! `delegate_stake` (its third argument) must have been compared before.

use vstd::prelude::*;
use crate::checkers::{finding_reported, report_finding};
use crate::checkers::bump_seed::{call_args, const_callee, const_callee_exec};
use crate::checkers::cross_program_invocation::{cmp_eq, cmp_ne, is_place_operand};
use crate::mir::{
    def_path, peeled_adt_path, place_ty, place_ty_exec, BinOp, Body, DefId, Operand, Place,
    PlaceView, Rvalue, Tcx, Terminator, TerminatorKind,
};
use crate::reporter::{report_wf, Report, VulnerabilityType};
use crate::source_info::{
    get_source_file, get_source_lines, or_empty, spec_source_file, spec_source_lines,
    unwrap_or_empty,
};
use crate::strs::str_eq;
use crate::wpa::{flag_of, flags_set, FullPlaceRef, FullPlaceView, StateMachine, StateTransitor};

verus! {

/// The function that delegates a stake to a validator.
pub open spec fn stake_fun() -> Seq<char> {
    "anchor_lang::solana_program::stake::instruction::delegate_stake"@
}

/// The public key type.
pub open spec fn pubkey_path() -> Seq<char> {
    "anchor_lang::prelude::Pubkey"@
}

/// Whether a value is a key, and the shared flag that tells whether it was compared.
#[derive(Debug, Clone, Copy, PartialEq, Eq)]
pub struct StakingValidator {
    pub is_key: bool,
    pub checked: usize,
}

/// A state with a fresh, unset flag.
pub open spec fn fresh_sv(flags: Seq<bool>) -> (StakingValidator, Seq<bool>) {
    (StakingValidator { is_key: false, checked: flags.len() as usize }, flags.push(false))
}

/// The merge of two states: a fresh flag set when either flag is.
pub open spec fn sv_merge(a: StakingValidator, b: StakingValidator, flags: Seq<bool>) -> (StakingValidator, Seq<bool>) {
    (
        StakingValidator { is_key: a.is_key || b.is_key, checked: flags.len() as usize },
        flags.push(flag_of(flags, a.checked) || flag_of(flags, b.checked)),
    )
}

/// The type of the place is exactly the public key type.
pub open spec fn sv_pubkey(tcx: Tcx, body: Body, p: PlaceView) -> bool {
    match place_ty(tcx, body, p) {
        Some(t) => peeled_adt_path(tcx, t) == Some(pubkey_path()),
        None => false,
    }
}

/// The effect of computing the state of a place: a place with a state keeps
/// it; a key gets a fresh state that is stored for it; any other place gets
/// a fresh state.
pub open spec fn sv_place(
    states: Map<FullPlaceView, StakingValidator>,
    flags: Seq<bool>,
    cur: DefId,
    tcx: Tcx,
    body: Body,
    p: PlaceView,
) -> (StakingValidator, Map<FullPlaceView, StakingValidator>, Seq<bool>) {
    let k = FullPlaceView { func: body.def_id, place: p };
    if states.contains_key(k) {
        (states[k], states, flags)
    } else if sv_pubkey(tcx, body, p) {
        let st = StakingValidator { is_key: true, checked: flags.len() as usize };
        let f1 = flags.push(false);
        let k2 = FullPlaceView { func: cur, place: p };
        if states.contains_key(k2) {
            let (m, f2) = sv_merge(states[k2], st, f1);
            (st, states.insert(k2, m), f2)
        } else {
            (st, states.insert(k2, st), f1)
        }
    } else {
        (fresh_sv(flags).0, states, fresh_sv(flags).1)
    }
}

/// The effect of computing the state of an operand.
pub open spec fn sv_operand(
    states: Map<FullPlaceView, StakingValidator>,
    flags: Seq<bool>,
    cur: DefId,
    tcx: Tcx,
    body: Body,
    op: Operand,
) -> (StakingValidator, Map<FullPlaceView, StakingValidator>, Seq<bool>) {
    match op {
        Operand::Copy(p) => sv_place(states, flags, cur, tcx, body, p@),
        Operand::Move(p) => sv_place(states, flags, cur, tcx, body, p@),
        Operand::Constant(_) => (fresh_sv(flags).0, states, fresh_sv(flags).1),
    }
}

/// The effect of a comparison on an operand: a key's flag is set.
pub open spec fn sv_mark(
    states: Map<FullPlaceView, StakingValidator>,
    flags: Seq<bool>,
    cur: DefId,
    tcx: Tcx,
    body: Body,
    op: Operand,
) -> (Map<FullPlaceView, StakingValidator>, Seq<bool>) {
    let (st, s1, f1) = sv_operand(states, flags, cur, tcx, body, op);
    (s1, if st.is_key { flags_set(f1, st.checked, true) } else { f1 })
}

/// The effect of computing the state of an rvalue.
pub open spec fn sv_rvalue(
    states: Map<FullPlaceView, StakingValidator>,
    flags: Seq<bool>,
    cur: DefId,
    tcx: Tcx,
    body: Body,
    rv: Rvalue,
) -> (StakingValidator, Map<FullPlaceView, StakingValidator>, Seq<bool>) {
    match rv {
        Rvalue::Use(op) => sv_operand(states, flags, cur, tcx, body, op),
        Rvalue::Ref(p) => sv_place(states, flags, cur, tcx, body, p@),
        Rvalue::Cast(op, _) => sv_operand(states, flags, cur, tcx, body, op),
        Rvalue::BinaryOp(o, a, b) => if o == BinOp::Ne || o == BinOp::Eq {
            let (s1, f1) = sv_mark(states, flags, cur, tcx, body, a);
            let (s2, f2) = sv_mark(s1, f1, cur, tcx, body, b);
            (fresh_sv(f2).0, s2, fresh_sv(f2).1)
        } else {
            (fresh_sv(flags).0, states, fresh_sv(flags).1)
        },
        _ => (fresh_sv(flags).0, states, fresh_sv(flags).1),
    }
}

/// The call delegates a stake to a vote account key that was never compared.
pub open spec fn sv_unchecked_call(
    states: Map<FullPlaceView, StakingValidator>,
    flags: Seq<bool>,
    cur: DefId,
    tcx: Tcx,
    body: Body,
    t: Terminator,
) -> bool {
    match const_callee(tcx, t) {
        Some(f) => def_path(tcx, f) == stake_fun() && call_args(t).len() == 3 && {
            let (st, s1, f1) = sv_operand(states, flags, cur, tcx, body, call_args(t)[2]);
            st.is_key && is_place_operand(call_args(t)[2]) && !flag_of(f1, st.checked)
        },
        None => false,
    }
}

/// The effect of a terminator on the states and flags, with the state it
/// returns: a call of `delegate_stake` with three arguments computes the
/// state of the vote key (the last argument); a comparison (`eq` or `ne`)
/// of two operands marks the keys among them as checked; then a fresh
/// state is returned.
pub open spec fn sv_terminator(
    states: Map<FullPlaceView, StakingValidator>,
    flags: Seq<bool>,
    cur: DefId,
    tcx: Tcx,
    body: Body,
    t: Terminator,
) -> (StakingValidator, Map<FullPlaceView, StakingValidator>, Seq<bool>) {
    let (s2, f2) = match const_callee(tcx, t) {
        Some(f) => if def_path(tcx, f) == stake_fun() {
            if call_args(t).len() == 3 {
                let (st, s1, f1) = sv_operand(states, flags, cur, tcx, body, call_args(t)[2]);
                (s1, f1)
            } else {
                (states, flags)
            }
        } else if (def_path(tcx, f) == "std::cmp::PartialEq::eq"@ || def_path(tcx, f)
            == "std::cmp::PartialEq::ne"@) && call_args(t).len() == 2 {
            let (s1, f1) = sv_mark(states, flags, cur, tcx, body, call_args(t)[0]);
            sv_mark(s1, f1, cur, tcx, body, call_args(t)[1])
        } else {
            (states, flags)
        },
        None => (states, flags),
    };
    (fresh_sv(f2).0, s2, fresh_sv(f2).1)
}

/// Allocates a state with a fresh, unset flag.
fn fresh(sm: &mut StateMachine<StakingValidator>) -> (r: StakingValidator)
    requires
        old(sm).wf(),
    ensures
        final(sm).wf(),
        (r, final(sm).flags()) == fresh_sv(old(sm).flags()),
        final(sm).states() == old(sm).states(),
        final(sm).func_states() == old(sm).func_states(),
        final(sm).stack() == old(sm).stack(),
{
    let id = sm.new_flag(false);
    StakingValidator { is_key: false, checked: id }
}

/// Whether the type of the place is exactly the public key type.
fn is_pubkey(place: &Place, body: &Body, tcx: &Tcx) -> (r: bool)
    ensures
        r == sv_pubkey(*tcx, *body, place@),
{
    match place_ty_exec(tcx, body, place) {
        Some(t) => match tcx.peeled_adt_path(t) {
            Some(path) => {
                proof {
                    reveal_strlit("anchor_lang::prelude::Pubkey");
                }
                str_eq(path.as_str(), "anchor_lang::prelude::Pubkey")
            },
            None => false,
        },
        None => false,
    }
}

impl StakingValidator {
    /// A state that is not a key, with a fresh, unset flag.
    pub fn default(sm: &mut StateMachine<StakingValidator>) -> (r: StakingValidator)
        requires
            old(sm).wf(),
        ensures
            final(sm).wf(),
            (r, final(sm).flags()) == fresh_sv(old(sm).flags()),
            final(sm).states() == old(sm).states(),
            final(sm).func_states() == old(sm).func_states(),
            final(sm).stack() == old(sm).stack(),
    {
        fresh(sm)
    }

    /// Sets the checked flag of a key operand.
    fn mark_checked(
        op: &Operand,
        body: &Body,
        tcx: &Tcx,
        sm: &mut StateMachine<Self>,
        report: &mut Report,
        span: u32,
    )
        requires
            old(sm).wf(),
            old(sm).stack().len() > 0,
            report_wf(*old(report)),
        ensures
            final(sm).wf(),
            final(sm).stack() == old(sm).stack(),
            final(sm).func_states() == old(sm).func_states(),
            *final(report) == *old(report),
            (final(sm).states(), final(sm).flags()) == sv_mark(
                old(sm).states(),
                old(sm).flags(),
                old(sm).stack().last(),
                *tcx,
                *body,
                *op,
            ),
    {
        let st = Self::compute_operand(op, body, tcx, sm, report, span);
        if st.is_key {
            sm.set_flag(st.checked, true);
        }
    }
}

impl StateTransitor for StakingValidator {
    open spec fn rvalue_step(
        rvalue: Rvalue,
        body: Body,
        tcx: Tcx,
        span: u32,
        sa: crate::wpa::SmState<Self>,
        ra: Report,
        r: Self,
        sb: crate::wpa::SmState<Self>,
        rb: Report,
    ) -> bool {
        &&& (rb == ra)
        &&& ((r, sb.states, sb.flags) == sv_rvalue(
                    sa.states,
                    sa.flags,
                    sa.stack.last(),
                    tcx,
                    body,
                    rvalue,
                ))
    }

    open spec fn operand_step(
        op: Operand,
        body: Body,
        tcx: Tcx,
        span: u32,
        sa: crate::wpa::SmState<Self>,
        ra: Report,
        r: Self,
        sb: crate::wpa::SmState<Self>,
        rb: Report,
    ) -> bool {
        &&& (rb == ra)
        &&& ((r, sb.states, sb.flags) == sv_operand(
                    sa.states,
                    sa.flags,
                    sa.stack.last(),
                    tcx,
                    body,
                    op,
                ))
    }

    open spec fn place_step(
        place: crate::mir::PlaceView,
        body: Body,
        tcx: Tcx,
        span: Option<u32>,
        sa: crate::wpa::SmState<Self>,
        ra: Report,
        r: Self,
        sb: crate::wpa::SmState<Self>,
        rb: Report,
    ) -> bool {
        &&& (rb == ra)
        &&& ((r, sb.states, sb.flags) == sv_place(
                    sa.states,
                    sa.flags,
                    sa.stack.last(),
                    tcx,
                    body,
                    place,
                ))
    }

    open spec fn init_step(
        place: crate::mir::PlaceView,
        body: Body,
        tcx: Tcx,
        sa: crate::wpa::SmState<Self>,
        ra: Report,
        r: Self,
        sb: crate::wpa::SmState<Self>,
        rb: Report,
    ) -> bool {
        &&& (rb == ra)
        &&& (sb.states == sa.states)
        &&& (sb.flags == fresh_sv(sa.flags).1)
        &&& (r == (StakingValidator {
                    is_key: sv_pubkey(tcx, body, place),
                    checked: sa.flags.len() as usize,
                }))
    }

    open spec fn terminator_step(
        terminator: Terminator,
        body: Body,
        tcx: Tcx,
        span: u32,
        sa: crate::wpa::SmState<Self>,
        ra: Report,
        r: Self,
        sb: crate::wpa::SmState<Self>,
        rb: Report,
    ) -> bool {
        &&& ((r, sb.states, sb.flags) == sv_terminator(
                    sa.states,
                    sa.flags,
                    sa.stack.last(),
                    tcx,
                    body,
                    terminator,
                ))
        &&& (if sv_unchecked_call(sa.states, sa.flags, sa.stack.last(), tcx, body, terminator) {
                    finding_reported(
                        ra,
                        rb,
                        tcx,
                        sa.stack,
                        VulnerabilityType::StakingValidator,
                        def_path(tcx, body.def_id),
                        or_empty(spec_source_file(tcx, span)),
                        or_empty(spec_source_lines(tcx, body.span)),
                        "GitHub Link to be added."@,
                        false,
                    )
                } else {
                    rb == ra
                })
    }

    open spec fn spec_compute_func(body: Body, tcx: Tcx, flags: Seq<bool>) -> Option<Self> {
        None
    }

    open spec fn spec_compute_func_flags(body: Body, tcx: Tcx, flags: Seq<bool>) -> Seq<bool> {
        flags
    }

    /// This analysis keeps no state per function.
    fn compute_func(body: &Body, tcx: &Tcx, sm: &mut StateMachine<Self>) -> (r: Option<Self>)
        ensures
            *final(sm) == *old(sm),
    {
        None
    }

    open spec fn spec_report_func(
        body: Body,
        tcx: Tcx,
        state: Self,
        func_states: Map<crate::mir::DefId, Self>,
        stack: Seq<crate::mir::DefId>,
        flags: Seq<bool>,
        before: Report,
        after: Report,
    ) -> bool {
        after == before
    }

    /// This analysis reports nothing once a function has been analysed.
    fn report_func(
        body: &Body,
        tcx: &Tcx,
        state: Self,
        sm: &mut StateMachine<Self>,
        report: &mut Report,
    )
        ensures
            *final(sm) == *old(sm),
            *final(report) == *old(report),
    {
    }

    open spec fn spec_merge(self, other: Self, tcx: Tcx, flags: Seq<bool>) -> Self {
        sv_merge(self, other, flags).0
    }

    open spec fn spec_merge_flags(self, other: Self, flags: Seq<bool>) -> Seq<bool> {
        sv_merge(self, other, flags).1
    }

    fn dup(&self) -> (r: Self) {
        *self
    }

    /// A comparison marks its key operands as checked.
    fn compute_rvalue(
        rvalue: &Rvalue,
        body: &Body,
        tcx: &Tcx,
        sm: &mut StateMachine<Self>,
        report: &mut Report,
        span: u32,
    ) -> (r: Self)
        ensures
            *final(report) == *old(report),
            (r, final(sm).states(), final(sm).flags()) == sv_rvalue(
                old(sm).states(),
                old(sm).flags(),
                old(sm).stack().last(),
                *tcx,
                *body,
                *rvalue,
            ),
    {
        match rvalue {
            Rvalue::Use(op) => {
                return Self::compute_operand(op, body, tcx, sm, report, span);
            },
            Rvalue::Ref(place) => {
                return Self::compute_place(place, body, tcx, sm, report, Some(span));
            },
            Rvalue::Cast(op, _) => {
                return Self::compute_operand(op, body, tcx, sm, report, span);
            },
            Rvalue::BinaryOp(opnd, lhs, rhs) => match opnd {
                BinOp::Ne | BinOp::Eq => {
                    Self::mark_checked(lhs, body, tcx, sm, report, span);
                    Self::mark_checked(rhs, body, tcx, sm, report, span);
                },
                _ => {},
            },
            _ => {},
        }
        fresh(sm)
    }

    fn compute_operand(
        op: &Operand,
        body: &Body,
        tcx: &Tcx,
        sm: &mut StateMachine<Self>,
        report: &mut Report,
        span: u32,
    ) -> (r: Self)
        ensures
            *final(report) == *old(report),
            (r, final(sm).states(), final(sm).flags()) == sv_operand(
                old(sm).states(),
                old(sm).flags(),
                old(sm).stack().last(),
                *tcx,
                *body,
                *op,
            ),
    {
        match op {
            Operand::Move(from) | Operand::Copy(from) => Self::compute_place(
                from,
                body,
                tcx,
                sm,
                report,
                Some(span),
            ),
            Operand::Constant(_) => fresh(sm),
        }
    }

    /// A place with a state keeps it; a key gets a fresh state that is
    /// stored for it; any other place gets a fresh state.
    fn compute_place(
        place: &Place,
        body: &Body,
        tcx: &Tcx,
        sm: &mut StateMachine<Self>,
        report: &mut Report,
        span: Option<u32>,
    ) -> (r: Self)
        ensures
            *final(report) == *old(report),
            (r, final(sm).states(), final(sm).flags()) == sv_place(
                old(sm).states(),
                old(sm).flags(),
                old(sm).stack().last(),
                *tcx,
                *body,
                place@,
            ),
    {
        let fp = FullPlaceRef::new(body.def_id, place.copy_place());
        match sm.get_state(&fp) {
            Some(st) => {
                return *st;
            },
            None => {},
        }
        if is_pubkey(place, body, tcx) {
            let mut st = fresh(sm);
            st.is_key = true;
            let full = FullPlaceRef::new(sm.get_cur_func(), place.copy_place());
            match sm.get_state(&full) {
                Some(old_st) => {
                    let old_st = *old_st;
                    let merged = old_st.merge(st, body, tcx, sm);
                    sm.store(full, merged);
                },
                None => {
                    sm.store(full, st);
                },
            }
            return st;
        }
        fresh(sm)
    }

    /// A key gets a fresh, unset flag; any other place a fresh state.
    fn init_place(
        place: &Place,
        body: &Body,
        tcx: &Tcx,
        sm: &mut StateMachine<Self>,
        report: &mut Report,
    ) -> (r: Self)
        ensures
            *final(report) == *old(report),
            final(sm).states() == old(sm).states(),
            final(sm).flags() == fresh_sv(old(sm).flags()).1,
            r == (StakingValidator {
                is_key: sv_pubkey(*tcx, *body, place@),
                checked: old(sm).flags().len() as usize,
            }),
    {
        let mut st = fresh(sm);
        if is_pubkey(place, body, tcx) {
            st.is_key = true;
        }
        st
    }

    fn merge(&self, other: Self, body: &Body, tcx: &Tcx, sm: &mut StateMachine<Self>) -> (r: Self) {
        let v = sm.flag(self.checked) || sm.flag(other.checked);
        let id = sm.new_flag(v);
        StakingValidator { is_key: self.is_key || other.is_key, checked: id }
    }

    /// A vote account key passed to `delegate_stake` without having been
    /// compared is reported; a comparison marks its key operands as checked.
    fn compute_terminator(
        terminator: &Terminator,
        body: &Body,
        tcx: &Tcx,
        sm: &mut StateMachine<Self>,
        report: &mut Report,
        span: u32,
    ) -> (r: Self)
        ensures
            (r, final(sm).states(), final(sm).flags()) == sv_terminator(
                old(sm).states(),
                old(sm).flags(),
                old(sm).stack().last(),
                *tcx,
                *body,
                *terminator,
            ),
            if sv_unchecked_call(old(sm).states(), old(sm).flags(), old(sm).stack().last(), *tcx, *body, *terminator) {
                finding_reported(
                    *old(report),
                    *final(report),
                    *tcx,
                    old(sm).stack(),
                    VulnerabilityType::StakingValidator,
                    def_path(*tcx, body.def_id),
                    or_empty(spec_source_file(*tcx, span)),
                    or_empty(spec_source_lines(*tcx, body.span)),
                    "GitHub Link to be added."@,
                    false,
                )
            } else {
                *final(report) == *old(report)
            },
    {
        proof {
            reveal_strlit("anchor_lang::solana_program::stake::instruction::delegate_stake");
            reveal_strlit("std::cmp::PartialEq::ne");
            reveal_strlit("std::cmp::PartialEq::eq");
            reveal_strlit("GitHub Link to be added.");
        }
        match const_callee_exec(tcx, terminator) {
            Some(f) => {
                let func_name = tcx.def_path_str(f);
                match &terminator.kind {
                    TerminatorKind::Call { args, .. } => {
                        if str_eq(func_name.as_str(), "anchor_lang::solana_program::stake::instruction::delegate_stake") {
                            if args.len() == 3 {
                                let vote_key = &args[2];
                                let st = Self::compute_operand(vote_key, body, tcx, sm, report, span);
                                if st.is_key {
                                    match vote_key {
                                        Operand::Move(_) | Operand::Copy(_) => {
                                            if !sm.flag(st.checked) {
                                                let code = unwrap_or_empty(get_source_file(tcx, span));
                                                let context = unwrap_or_empty(get_source_lines(tcx, body.span));
                                                report_finding(
                                                    report,
                                                    tcx,
                                                    sm.get_call_stack(),
                                                    VulnerabilityType::StakingValidator,
                                                    tcx.def_path_str(body.def_id),
                                                    code,
                                                    context,
                                                    String::from_str("GitHub Link to be added."),
                                                    false,
                                                );
                                            }
                                        },
                                        _ => {},
                                    }
                                }
                            }
                        } else if (str_eq(func_name.as_str(), "std::cmp::PartialEq::eq") || str_eq(
                            func_name.as_str(),
                            "std::cmp::PartialEq::ne",
                        )) && args.len() == 2 {
                            Self::mark_checked(&args[0], body, tcx, sm, report, span);
                            Self::mark_checked(&args[1], body, tcx, sm, report, span);
                        }
                    },
                    _ => {},
                }
            },
            None => {},
        }
        fresh(sm)
    }
}

/// A comparison of an operand keeps every state recorded for a place of the
/// body and every flag that is set.
proof fn lemma_sv_mark_keeps(
    states: Map<FullPlaceView, StakingValidator>,
    flags: Seq<bool>,
    cur: DefId,
    tcx: Tcx,
    body: Body,
    op: Operand,
    k: FullPlaceView,
    i: usize,
)
    requires
        k.func == body.def_id,
        states.contains_key(k),
        (i as int) < flags.len(),
        flag_of(flags, i),
    ensures
        sv_mark(states, flags, cur, tcx, body, op).0.contains_key(k),
        sv_mark(states, flags, cur, tcx, body, op).0[k] == states[k],
        (i as int) < sv_mark(states, flags, cur, tcx, body, op).1.len(),
        flag_of(sv_mark(states, flags, cur, tcx, body, op).1, i),
{
    let (st, s1, f1) = sv_operand(states, flags, cur, tcx, body, op);
    assert((i as int) < f1.len() && f1[i as int]) by {
        match op {
            Operand::Copy(q) => {},
            Operand::Move(q) => {},
            Operand::Constant(_) => {},
        }
    }
    assert(s1.contains_key(k) && s1[k] == states[k]) by {
        match op {
            Operand::Copy(q) => {
                if !states.contains_key(FullPlaceView { func: body.def_id, place: q@ }) {
                    assert(FullPlaceView { func: cur, place: q@ } != k);
                }
            },
            Operand::Move(q) => {
                if !states.contains_key(FullPlaceView { func: body.def_id, place: q@ }) {
                    assert(FullPlaceView { func: cur, place: q@ } != k);
                }
            },
            Operand::Constant(_) => {},
        }
    }
}

/// A key compared by `eq` or by `ne` (a call with two operands, the key
/// first) is checked: its flag is set, nothing is reported, and a later call
/// of `delegate_stake` with that key as the vote account reports nothing.
/// The key is a place of the function being analysed, with a key state or,
/// when it has none yet, of the public key type.
pub proof fn law_compared_key_is_checked(
    t_compare: Terminator,
    t_call: Terminator,
    p: Place,
    other: Operand,
    body: Body,
    tcx: Tcx,
    span1: u32,
    span2: u32,
    sa: crate::wpa::SmState<StakingValidator>,
    ra: Report,
    r1: StakingValidator,
    sb: crate::wpa::SmState<StakingValidator>,
    rb: Report,
    r2: StakingValidator,
    sc: crate::wpa::SmState<StakingValidator>,
    rc: Report,
)
    requires
        const_callee(tcx, t_compare) matches Some(f) && (def_path(tcx, f) == "std::cmp::PartialEq::ne"@ || def_path(
            tcx,
            f,
        ) == "std::cmp::PartialEq::eq"@),
        call_args(t_compare) == seq![Operand::Copy(p), other],
        sa.stack.len() > 0,
        sa.stack.last() == body.def_id,
        ({
            let k = FullPlaceView { func: body.def_id, place: p@ };
            if sa.states.contains_key(k) {
                sa.states[k].is_key && (sa.states[k].checked as int) < sa.flags.len()
            } else {
                sv_pubkey(tcx, body, p@)
            }
        }),
        StakingValidator::terminator_step(t_compare, body, tcx, span1, sa, ra, r1, sb, rb),
        const_callee(tcx, t_call) matches Some(g) && def_path(tcx, g) == stake_fun(),
        call_args(t_call).len() == 3,
        call_args(t_call)[2] == Operand::Copy(p),
        StakingValidator::terminator_step(t_call, body, tcx, span2, sb, rb, r2, sc, rc),
    ensures
        rb == ra,
        rc == rb,
        ({
            let k = FullPlaceView { func: body.def_id, place: p@ };
            &&& sb.states.contains_key(k)
            &&& sb.states[k].is_key
            &&& flag_of(sb.flags, sb.states[k].checked)
        }),
{
    reveal_strlit("anchor_lang::solana_program::stake::instruction::delegate_stake");
    reveal_strlit("std::cmp::PartialEq::ne");
    reveal_strlit("std::cmp::PartialEq::eq");
    let k = FullPlaceView { func: body.def_id, place: p@ };
    let cur = sa.stack.last();
    let f = const_callee(tcx, t_compare)->0;
    assert(stake_fun()[0] == 'a');
    assert("std::cmp::PartialEq::ne"@[0] == 's');
    assert("std::cmp::PartialEq::eq"@[0] == 's');
    assert(def_path(tcx, f) != stake_fun());
    let a0 = call_args(t_compare)[0];
    let (st, s1, f1) = sv_operand(sa.states, sa.flags, cur, tcx, body, a0);
    let (m1, g1) = sv_mark(sa.states, sa.flags, cur, tcx, body, a0);
    assert(st.is_key && s1.contains_key(k) && s1[k] == st && (st.checked as int) < f1.len());
    assert(m1 == s1 && g1 == flags_set(f1, st.checked, true));
    assert(flag_of(g1, st.checked));
    lemma_sv_mark_keeps(m1, g1, cur, tcx, body, call_args(t_compare)[1], k, st.checked);
    let (m2, g2) = sv_mark(m1, g1, cur, tcx, body, call_args(t_compare)[1]);
    assert(sb.states == m2 && sb.flags == fresh_sv(g2).1);
    assert(flag_of(sb.flags, st.checked));
}

/// A call of `delegate_stake` with three arguments whose vote account (the
/// last) is a key place that was never compared records one finding
/// (unless the report is full).
pub proof fn law_unchecked_vote_key_reported(
    t: Terminator,
    p: Place,
    body: Body,
    tcx: Tcx,
    span: u32,
    sa: crate::wpa::SmState<StakingValidator>,
    ra: Report,
    r: StakingValidator,
    sb: crate::wpa::SmState<StakingValidator>,
    rb: Report,
)
    requires
        const_callee(tcx, t) matches Some(g) && def_path(tcx, g)
            == "anchor_lang::solana_program::stake::instruction::delegate_stake"@,
        call_args(t).len() == 3,
        call_args(t)[2] == Operand::Copy(p),
        ({
            let k = FullPlaceView { func: body.def_id, place: p@ };
            sa.states.contains_key(k) && sa.states[k].is_key && !flag_of(sa.flags, sa.states[k].checked)
        }),
        ra.total < usize::MAX,
        StakingValidator::terminator_step(t, body, tcx, span, sa, ra, r, sb, rb),
    ensures
        rb.total == ra.total + 1,
        rb.oth_cnt == ra.oth_cnt + 1,
{
    crate::checkers::law_finding_counted(
        ra,
        rb,
        tcx,
        sa.stack,
        VulnerabilityType::StakingValidator,
        def_path(tcx, body.def_id),
        or_empty(spec_source_file(tcx, span)),
        or_empty(spec_source_lines(tcx, body.span)),
        "GitHub Link to be added."@,
        false,
    );
}

/// A comparison `==` or `!=` whose first operand is a key place marks that
/// key as checked: its state stays and its flag is set. Nothing is reported.
pub proof fn law_key_equality_checks(
    o: BinOp,
    p: Place,
    other: Operand,
    body: Body,
    tcx: Tcx,
    span: u32,
    sa: crate::wpa::SmState<StakingValidator>,
    ra: Report,
    r: StakingValidator,
    sb: crate::wpa::SmState<StakingValidator>,
    rb: Report,
)
    requires
        o == BinOp::Eq || o == BinOp::Ne,
        ({
            let k = FullPlaceView { func: body.def_id, place: p@ };
            sa.states.contains_key(k) && sa.states[k].is_key && sa.states[k].checked < sa.flags.len()
        }),
        StakingValidator::rvalue_step(Rvalue::BinaryOp(o, Operand::Copy(p), other), body, tcx, span, sa, ra, r, sb, rb),
    ensures
        rb == ra,
        ({
            let k = FullPlaceView { func: body.def_id, place: p@ };
            sb.states.contains_key(k) && sb.states[k] == sa.states[k] && flag_of(sb.flags, sa.states[k].checked)
        }),
{
    let k = FullPlaceView { func: body.def_id, place: p@ };
    let cur = sa.stack.last();
    let (m1, g1) = sv_mark(sa.states, sa.flags, cur, tcx, body, Operand::Copy(p));
    assert(m1 == sa.states && g1 == flags_set(sa.flags, sa.states[k].checked, true));
    lemma_sv_mark_keeps(m1, g1, cur, tcx, body, other, k, sa.states[k].checked);
}

} // verus!
