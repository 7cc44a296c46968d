//! Cross program invocation: the program id passed to an `spl_token`
//! instruction must have been checked.

use vstd::prelude::*;
use crate::checkers::{find_nearest_state, finding_reported, nearest_state, report_finding};
use crate::checkers::bump_seed::{call_args, const_callee, const_callee_exec};
use crate::mir::{
    def_path, peeled_adt_path, place_ty, place_ty_exec, Body, DefId, Operand, Place, PlaceView,
    Rvalue, BinOp, Tcx, Terminator, TerminatorKind,
};
use crate::reporter::{report_wf, Report, VulnerabilityType};
use crate::source_info::{
    get_source_file, get_source_lines, or_empty, spec_source_file, spec_source_lines,
    unwrap_or_empty,
};
use crate::strs::{seq_contains, str_contains, str_eq};
use crate::wpa::{flag_of, flags_set, FullPlaceRef, FullPlaceView, StateMachine, StateTransitor};

verus! {

/// Whether a value is a key, whether it comes from outside, and the shared
/// flag that tells whether it was checked.
#[derive(Debug, Clone, Copy, PartialEq, Eq)]
pub struct ProgramId {
    pub is_key: bool,
    pub external: bool,
    pub checked: usize,
}

/// A state with a fresh, unset flag.
pub open spec fn fresh_pid(flags: Seq<bool>) -> (ProgramId, Seq<bool>) {
    (ProgramId { is_key: false, external: false, checked: flags.len() as usize }, flags.push(false))
}

/// The type of the place is a public key (its path contains `::Pubkey`).
pub open spec fn pid_pubkey(tcx: Tcx, body: Body, p: PlaceView) -> bool {
    match place_ty(tcx, body, p) {
        Some(t) => match peeled_adt_path(tcx, t) {
            Some(path) => seq_contains(path, "::Pubkey"@),
            None => false,
        },
        None => false,
    }
}

/// The merge of two states: a fresh flag set when either flag is.
pub open spec fn pid_merge(a: ProgramId, b: ProgramId, flags: Seq<bool>) -> (ProgramId, Seq<bool>) {
    (
        ProgramId {
            is_key: a.is_key || b.is_key,
            external: a.external || b.external,
            checked: flags.len() as usize,
        },
        flags.push(flag_of(flags, a.checked) || flag_of(flags, b.checked)),
    )
}

/// The effect of computing the state of a place: the state, and the states
/// and flags afterwards. A place with a state keeps it; a key whose base has
/// a state shares that base's flag (and the base's state is stored for the
/// place); any other place gets a fresh state.
pub open spec fn pid_place(
    states: Map<FullPlaceView, ProgramId>,
    flags: Seq<bool>,
    cur: DefId,
    tcx: Tcx,
    body: Body,
    p: PlaceView,
) -> (ProgramId, Map<FullPlaceView, ProgramId>, Seq<bool>) {
    let k = FullPlaceView { func: body.def_id, place: p };
    if states.contains_key(k) {
        (states[k], states, flags)
    } else {
        match nearest_state(states, body.def_id, p) {
            Some(st) => if pid_pubkey(tcx, body, p) {
                let k2 = FullPlaceView { func: cur, place: p };
                let r = ProgramId { is_key: true, external: st.external, checked: st.checked };
                if states.contains_key(k2) {
                    let (m, f2) = pid_merge(states[k2], st, flags);
                    (r, states.insert(k2, m), f2)
                } else {
                    (r, states.insert(k2, st), flags)
                }
            } else {
                (fresh_pid(flags).0, states, fresh_pid(flags).1)
            },
            None => (fresh_pid(flags).0, states, fresh_pid(flags).1),
        }
    }
}

/// The effect of computing the state of an operand.
pub open spec fn pid_operand(
    states: Map<FullPlaceView, ProgramId>,
    flags: Seq<bool>,
    cur: DefId,
    tcx: Tcx,
    body: Body,
    op: Operand,
) -> (ProgramId, Map<FullPlaceView, ProgramId>, Seq<bool>) {
    match op {
        Operand::Copy(p) => pid_place(states, flags, cur, tcx, body, p@),
        Operand::Move(p) => pid_place(states, flags, cur, tcx, body, p@),
        Operand::Constant(_) => (fresh_pid(flags).0, states, fresh_pid(flags).1),
    }
}

/// The effect of a comparison on an operand: a key's flag is set.
pub open spec fn pid_mark(
    states: Map<FullPlaceView, ProgramId>,
    flags: Seq<bool>,
    cur: DefId,
    tcx: Tcx,
    body: Body,
    op: Operand,
) -> (Map<FullPlaceView, ProgramId>, Seq<bool>) {
    let (st, s1, f1) = pid_operand(states, flags, cur, tcx, body, op);
    (s1, if st.is_key { flags_set(f1, st.checked, true) } else { f1 })
}

/// The effect of a comparison of two operands.
pub open spec fn pid_compare(
    states: Map<FullPlaceView, ProgramId>,
    flags: Seq<bool>,
    cur: DefId,
    tcx: Tcx,
    body: Body,
    a: Operand,
    b: Operand,
) -> (Map<FullPlaceView, ProgramId>, Seq<bool>) {
    let (s1, f1) = pid_mark(states, flags, cur, tcx, body, a);
    pid_mark(s1, f1, cur, tcx, body, b)
}

/// The effect of computing the state of an rvalue.
pub open spec fn pid_rvalue(
    states: Map<FullPlaceView, ProgramId>,
    flags: Seq<bool>,
    cur: DefId,
    tcx: Tcx,
    body: Body,
    rv: Rvalue,
) -> (ProgramId, Map<FullPlaceView, ProgramId>, Seq<bool>) {
    match rv {
        Rvalue::Use(op) => pid_operand(states, flags, cur, tcx, body, op),
        Rvalue::Ref(p) => pid_place(states, flags, cur, tcx, body, p@),
        Rvalue::Cast(op, _) => pid_operand(states, flags, cur, tcx, body, op),
        Rvalue::BinaryOp(o, a, b) => if o == BinOp::Ne || o == BinOp::Eq {
            let (s2, f2) = pid_compare(states, flags, cur, tcx, body, a, b);
            (fresh_pid(f2).0, s2, fresh_pid(f2).1)
        } else {
            (fresh_pid(flags).0, states, fresh_pid(flags).1)
        },
        _ => (fresh_pid(flags).0, states, fresh_pid(flags).1),
    }
}

/// The function paths that the checker reacts to.
pub open spec fn spl_id() -> Seq<char> {
    "spl_token::id"@
}

pub open spec fn spl_instruction() -> Seq<char> {
    "spl_token::instruction"@
}

pub open spec fn cmp_ne() -> Seq<char> {
    "std::cmp::PartialEq::ne"@
}

pub open spec fn cmp_eq() -> Seq<char> {
    "std::cmp::PartialEq::eq"@
}

/// The operand is a place.
pub open spec fn is_place_operand(op: Operand) -> bool {
    op is Copy || op is Move
}

/// Allocates a state with a fresh, unset flag.
fn fresh(sm: &mut StateMachine<ProgramId>) -> (r: ProgramId)
    requires
        old(sm).wf(),
    ensures
        final(sm).wf(),
        (r, final(sm).flags()) == fresh_pid(old(sm).flags()),
        final(sm).states() == old(sm).states(),
        final(sm).func_states() == old(sm).func_states(),
        final(sm).stack() == old(sm).stack(),
{
    let id = sm.new_flag(false);
    ProgramId { is_key: false, external: false, checked: id }
}

/// Whether the type of the place is a public key.
fn is_pubkey(place: &Place, body: &Body, tcx: &Tcx) -> (r: bool)
    ensures
        r == pid_pubkey(*tcx, *body, place@),
{
    match place_ty_exec(tcx, body, place) {
        Some(t) => match tcx.peeled_adt_path(t) {
            Some(path) => {
                proof {
                    reveal_strlit("::Pubkey");
                }
                str_contains(path.as_str(), "::Pubkey")
            },
            None => false,
        },
        None => false,
    }
}

impl ProgramId {
    /// A state that is not a key, with a fresh, unset flag.
    pub fn default(sm: &mut StateMachine<ProgramId>) -> (r: ProgramId)
        requires
            old(sm).wf(),
        ensures
            final(sm).wf(),
            (r, final(sm).flags()) == fresh_pid(old(sm).flags()),
            final(sm).states() == old(sm).states(),
            final(sm).func_states() == old(sm).func_states(),
            final(sm).stack() == old(sm).stack(),
    {
        fresh(sm)
    }

    /// Sets the checked flag of a key operand.
    fn mark_checked(
        op: &Operand,
        body: &Body,
        tcx: &Tcx,
        sm: &mut StateMachine<Self>,
        report: &mut Report,
        span: u32,
    )
        requires
            old(sm).wf(),
            old(sm).stack().len() > 0,
            report_wf(*old(report)),
        ensures
            final(sm).wf(),
            final(sm).stack() == old(sm).stack(),
            final(sm).func_states() == old(sm).func_states(),
            *final(report) == *old(report),
            (final(sm).states(), final(sm).flags()) == pid_mark(
                old(sm).states(),
                old(sm).flags(),
                old(sm).stack().last(),
                *tcx,
                *body,
                *op,
            ),
    {
        let st = Self::compute_operand(op, body, tcx, sm, report, span);
        if st.is_key {
            sm.set_flag(st.checked, true);
        }
    }
}

/// The destination of a call terminator, if it has one.
pub open spec fn call_dest(t: Terminator) -> Option<PlaceView> {
    match t.kind {
        TerminatorKind::Call { destination, .. } => match destination {
            Some(d) => Some(d.0@),
            None => None,
        },
        _ => None,
    }
}

/// The effect of a terminator on the states and flags, with the state it
/// returns. The result of `spl_token::id` is the state of its destination,
/// which, when it is a key, is checked and internal. An `spl_token`
/// instruction computes the state of its program id (its first argument),
/// and a comparison (`eq` or `ne`) of two operands marks the keys among
/// them as checked; these, like every other terminator, return a fresh
/// state.
pub open spec fn pid_terminator(
    states: Map<FullPlaceView, ProgramId>,
    flags: Seq<bool>,
    cur: DefId,
    tcx: Tcx,
    body: Body,
    t: Terminator,
) -> (ProgramId, Map<FullPlaceView, ProgramId>, Seq<bool>) {
    let fresh_after = |s: Map<FullPlaceView, ProgramId>, f: Seq<bool>| (fresh_pid(f).0, s, fresh_pid(f).1);
    match const_callee(tcx, t) {
        Some(f) => if seq_contains(def_path(tcx, f), spl_id()) {
            match call_dest(t) {
                Some(d) => {
                    let (st, s1, f1) = pid_place(states, flags, cur, tcx, body, d);
                    if st.is_key {
                        (ProgramId { external: false, ..st }, s1, flags_set(f1, st.checked, true))
                    } else {
                        (st, s1, f1)
                    }
                },
                None => fresh_after(states, flags),
            }
        } else if seq_contains(def_path(tcx, f), spl_instruction()) {
            if call_args(t).len() > 0 {
                let (st, s1, f1) = pid_operand(states, flags, cur, tcx, body, call_args(t)[0]);
                fresh_after(s1, f1)
            } else {
                fresh_after(states, flags)
            }
        } else if (def_path(tcx, f) == "std::cmp::PartialEq::eq"@ || def_path(tcx, f)
            == "std::cmp::PartialEq::ne"@) && call_args(t).len() == 2 {
            let (s2, f2) = pid_compare(states, flags, cur, tcx, body, call_args(t)[0], call_args(t)[1]);
            fresh_after(s2, f2)
        } else {
            fresh_after(states, flags)
        },
        None => fresh_after(states, flags),
    }
}

/// The call passes an unchecked key as the program id of an `spl_token` instruction.
pub open spec fn pid_unchecked_call(
    states: Map<FullPlaceView, ProgramId>,
    flags: Seq<bool>,
    cur: DefId,
    tcx: Tcx,
    body: Body,
    t: Terminator,
) -> bool {
    match const_callee(tcx, t) {
        Some(f) => !seq_contains(def_path(tcx, f), spl_id()) && seq_contains(def_path(tcx, f), spl_instruction())
            && call_args(t).len() > 0 && {
            let (st, s1, f1) = pid_operand(states, flags, cur, tcx, body, call_args(t)[0]);
            st.is_key && is_place_operand(call_args(t)[0]) && !flag_of(f1, st.checked)
        },
        None => false,
    }
}

impl StateTransitor for ProgramId {
    open spec fn rvalue_step(
        rvalue: Rvalue,
        body: Body,
        tcx: Tcx,
        span: u32,
        sa: crate::wpa::SmState<Self>,
        ra: Report,
        r: Self,
        sb: crate::wpa::SmState<Self>,
        rb: Report,
    ) -> bool {
        &&& (rb == ra)
        &&& ((r, sb.states, sb.flags) == pid_rvalue(
                    sa.states,
                    sa.flags,
                    sa.stack.last(),
                    tcx,
                    body,
                    rvalue,
                ))
    }

    open spec fn operand_step(
        op: Operand,
        body: Body,
        tcx: Tcx,
        span: u32,
        sa: crate::wpa::SmState<Self>,
        ra: Report,
        r: Self,
        sb: crate::wpa::SmState<Self>,
        rb: Report,
    ) -> bool {
        &&& (rb == ra)
        &&& ((r, sb.states, sb.flags) == pid_operand(
                    sa.states,
                    sa.flags,
                    sa.stack.last(),
                    tcx,
                    body,
                    op,
                ))
    }

    open spec fn place_step(
        place: crate::mir::PlaceView,
        body: Body,
        tcx: Tcx,
        span: Option<u32>,
        sa: crate::wpa::SmState<Self>,
        ra: Report,
        r: Self,
        sb: crate::wpa::SmState<Self>,
        rb: Report,
    ) -> bool {
        &&& (rb == ra)
        &&& ((r, sb.states, sb.flags) == pid_place(
                    sa.states,
                    sa.flags,
                    sa.stack.last(),
                    tcx,
                    body,
                    place,
                ))
    }

    open spec fn init_step(
        place: crate::mir::PlaceView,
        body: Body,
        tcx: Tcx,
        sa: crate::wpa::SmState<Self>,
        ra: Report,
        r: Self,
        sb: crate::wpa::SmState<Self>,
        rb: Report,
    ) -> bool {
        &&& (rb == ra)
        &&& (sb.states == sa.states)
        &&& (sb.flags == fresh_pid(sa.flags).1)
        &&& (r == (ProgramId {
                    is_key: pid_pubkey(tcx, body, place),
                    external: false,
                    checked: sa.flags.len() as usize,
                }))
    }

    open spec fn terminator_step(
        terminator: Terminator,
        body: Body,
        tcx: Tcx,
        span: u32,
        sa: crate::wpa::SmState<Self>,
        ra: Report,
        r: Self,
        sb: crate::wpa::SmState<Self>,
        rb: Report,
    ) -> bool {
        &&& ((r, sb.states, sb.flags) == pid_terminator(
                    sa.states,
                    sa.flags,
                    sa.stack.last(),
                    tcx,
                    body,
                    terminator,
                ))
        &&& (if pid_unchecked_call(sa.states, sa.flags, sa.stack.last(), tcx, body, terminator) {
                    finding_reported(
                        ra,
                        rb,
                        tcx,
                        sa.stack,
                        VulnerabilityType::CrossProgramInvocation,
                        def_path(tcx, body.def_id),
                        or_empty(spec_source_file(tcx, span)),
                        or_empty(spec_source_lines(tcx, body.span)),
                        "UnResolved"@,
                        false,
                    )
                } else {
                    rb == ra
                })
    }

    open spec fn spec_compute_func(body: Body, tcx: Tcx, flags: Seq<bool>) -> Option<Self> {
        None
    }

    open spec fn spec_compute_func_flags(body: Body, tcx: Tcx, flags: Seq<bool>) -> Seq<bool> {
        flags
    }

    /// This analysis keeps no state per function.
    fn compute_func(body: &Body, tcx: &Tcx, sm: &mut StateMachine<Self>) -> (r: Option<Self>)
        ensures
            *final(sm) == *old(sm),
    {
        None
    }

    open spec fn spec_report_func(
        body: Body,
        tcx: Tcx,
        state: Self,
        func_states: Map<crate::mir::DefId, Self>,
        stack: Seq<crate::mir::DefId>,
        flags: Seq<bool>,
        before: Report,
        after: Report,
    ) -> bool {
        after == before
    }

    /// This analysis reports nothing once a function has been analysed.
    fn report_func(
        body: &Body,
        tcx: &Tcx,
        state: Self,
        sm: &mut StateMachine<Self>,
        report: &mut Report,
    )
        ensures
            *final(sm) == *old(sm),
            *final(report) == *old(report),
    {
    }

    open spec fn spec_merge(self, other: Self, tcx: Tcx, flags: Seq<bool>) -> Self {
        pid_merge(self, other, flags).0
    }

    open spec fn spec_merge_flags(self, other: Self, flags: Seq<bool>) -> Seq<bool> {
        pid_merge(self, other, flags).1
    }

    fn dup(&self) -> (r: Self) {
        *self
    }

    /// A comparison marks its key operands as checked.
    fn compute_rvalue(
        rvalue: &Rvalue,
        body: &Body,
        tcx: &Tcx,
        sm: &mut StateMachine<Self>,
        report: &mut Report,
        span: u32,
    ) -> (r: Self)
        ensures
            *final(report) == *old(report),
            (r, final(sm).states(), final(sm).flags()) == pid_rvalue(
                old(sm).states(),
                old(sm).flags(),
                old(sm).stack().last(),
                *tcx,
                *body,
                *rvalue,
            ),
    {
        match rvalue {
            Rvalue::Use(op) => {
                return Self::compute_operand(op, body, tcx, sm, report, span);
            },
            Rvalue::Ref(place) => {
                return Self::compute_place(place, body, tcx, sm, report, Some(span));
            },
            Rvalue::Cast(op, _ty) => {
                return Self::compute_operand(op, body, tcx, sm, report, span);
            },
            Rvalue::BinaryOp(opnd, lhs, rhs) => match opnd {
                BinOp::Ne | BinOp::Eq => {
                    Self::mark_checked(lhs, body, tcx, sm, report, span);
                    Self::mark_checked(rhs, body, tcx, sm, report, span);
                },
                _ => {},
            },
            _ => {},
        }
        fresh(sm)
    }

    fn compute_operand(
        op: &Operand,
        body: &Body,
        tcx: &Tcx,
        sm: &mut StateMachine<Self>,
        report: &mut Report,
        span: u32,
    ) -> (r: Self)
        ensures
            *final(report) == *old(report),
            (r, final(sm).states(), final(sm).flags()) == pid_operand(
                old(sm).states(),
                old(sm).flags(),
                old(sm).stack().last(),
                *tcx,
                *body,
                *op,
            ),
    {
        match op {
            Operand::Copy(from) | Operand::Move(from) => Self::compute_place(
                from,
                body,
                tcx,
                sm,
                report,
                Some(span),
            ),
            Operand::Constant(_) => fresh(sm),
        }
    }

    /// A place with a state keeps it; a key whose base has a state shares
    /// that base's checked flag; any other place gets a fresh state.
    fn compute_place(
        place: &Place,
        body: &Body,
        tcx: &Tcx,
        sm: &mut StateMachine<Self>,
        report: &mut Report,
        span: Option<u32>,
    ) -> (r: Self)
        ensures
            *final(report) == *old(report),
            (r, final(sm).states(), final(sm).flags()) == pid_place(
                old(sm).states(),
                old(sm).flags(),
                old(sm).stack().last(),
                *tcx,
                *body,
                place@,
            ),
    {
        let fp = FullPlaceRef::new(body.def_id, place.copy_place());
        match sm.get_state(&fp) {
            Some(st) => {
                return *st;
            },
            None => {},
        }
        let nearest = match find_nearest_state(sm, body.def_id, place) {
            Some(st) => Some(*st),
            None => None,
        };
        match nearest {
            Some(st) => {
                if is_pubkey(place, body, tcx) {
                    let external = st.external;
                    let checked = st.checked;
                    let full = FullPlaceRef::new(sm.get_cur_func(), place.copy_place());
                    match sm.get_state(&full) {
                        Some(old_st) => {
                            let old_st = *old_st;
                            let merged = old_st.merge(st, body, tcx, sm);
                            sm.store(full, merged);
                        },
                        None => {
                            sm.store(full, st);
                        },
                    }
                    return ProgramId { is_key: true, external, checked };
                }
            },
            None => {},
        }
        fresh(sm)
    }

    /// A key gets a fresh, unset flag; any other place a fresh state.
    fn init_place(
        place: &Place,
        body: &Body,
        tcx: &Tcx,
        sm: &mut StateMachine<Self>,
        report: &mut Report,
    ) -> (r: Self)
        ensures
            *final(report) == *old(report),
            final(sm).states() == old(sm).states(),
            final(sm).flags() == fresh_pid(old(sm).flags()).1,
            r == (ProgramId {
                is_key: pid_pubkey(*tcx, *body, place@),
                external: false,
                checked: old(sm).flags().len() as usize,
            }),
    {
        let mut st = fresh(sm);
        if is_pubkey(place, body, tcx) {
            st.is_key = true;
        }
        st
    }

    fn merge(&self, other: Self, body: &Body, tcx: &Tcx, sm: &mut StateMachine<Self>) -> (r: Self) {
        let v = sm.flag(self.checked) || sm.flag(other.checked);
        let id = sm.new_flag(v);
        ProgramId { is_key: self.is_key || other.is_key, external: self.external || other.external, checked: id }
    }

    /// The result of `spl_token::id` is a checked, internal key; a key passed
    /// unchecked as the program id of an `spl_token` instruction is reported;
    /// a comparison marks its key operands as checked.
    #[verifier::rlimit(50)]
    fn compute_terminator(
        terminator: &Terminator,
        body: &Body,
        tcx: &Tcx,
        sm: &mut StateMachine<Self>,
        report: &mut Report,
        span: u32,
    ) -> (r: Self)
        ensures
            (r, final(sm).states(), final(sm).flags()) == pid_terminator(
                old(sm).states(),
                old(sm).flags(),
                old(sm).stack().last(),
                *tcx,
                *body,
                *terminator,
            ),
            if pid_unchecked_call(old(sm).states(), old(sm).flags(), old(sm).stack().last(), *tcx, *body, *terminator) {
                finding_reported(
                    *old(report),
                    *final(report),
                    *tcx,
                    old(sm).stack(),
                    VulnerabilityType::CrossProgramInvocation,
                    def_path(*tcx, body.def_id),
                    or_empty(spec_source_file(*tcx, span)),
                    or_empty(spec_source_lines(*tcx, body.span)),
                    "UnResolved"@,
                    false,
                )
            } else {
                *final(report) == *old(report)
            },
    {
        proof {
            reveal_strlit("spl_token::id");
            reveal_strlit("spl_token::instruction");
            reveal_strlit("std::cmp::PartialEq::ne");
            reveal_strlit("std::cmp::PartialEq::eq");
            reveal_strlit("UnResolved");
        }
        match const_callee_exec(tcx, terminator) {
            Some(f) => {
                let func_name = tcx.def_path_str(f);
                match &terminator.kind {
                    TerminatorKind::Call { args, destination, .. } => {
                        if str_contains(func_name.as_str(), "spl_token::id") {
                            match destination {
                                Some((dest, _bb)) => {
                                    let mut st = Self::compute_place(dest, body, tcx, sm, report, Some(span));
                                    if st.is_key {
                                        sm.set_flag(st.checked, true);
                                        st.external = false;
                                    }
                                    return st;
                                },
                                None => {},
                            }
                        } else if str_contains(func_name.as_str(), "spl_token::instruction") {
                            if args.len() > 0 {
                                let program_id = &args[0];
                                let st = Self::compute_operand(program_id, body, tcx, sm, report, span);
                                if st.is_key {
                                    match program_id {
                                        Operand::Move(_) | Operand::Copy(_) => {
                                            if !sm.flag(st.checked) {
                                                let code = unwrap_or_empty(get_source_file(tcx, span));
                                                let context = unwrap_or_empty(get_source_lines(tcx, body.span));
                                                report_finding(
                                                    report,
                                                    tcx,
                                                    sm.get_call_stack(),
                                                    VulnerabilityType::CrossProgramInvocation,
                                                    tcx.def_path_str(body.def_id),
                                                    code,
                                                    context,
                                                    String::from_str("UnResolved"),
                                                    false,
                                                );
                                            }
                                        },
                                        _ => {},
                                    }
                                }
                            }
                        } else if (str_eq(func_name.as_str(), "std::cmp::PartialEq::eq") || str_eq(
                            func_name.as_str(),
                            "std::cmp::PartialEq::ne",
                        )) && args.len() == 2 {
                            Self::mark_checked(&args[0], body, tcx, sm, report, span);
                            Self::mark_checked(&args[1], body, tcx, sm, report, span);
                        }
                    },
                    _ => {},
                }
            },
            None => {},
        }
        fresh(sm)
    }
}

/// The comparison functions are not `spl_token` functions.
proof fn lemma_compare_not_spl(path: Seq<char>)
    requires
        path == cmp_ne() || path == cmp_eq(),
    ensures
        !seq_contains(path, spl_id()),
        !seq_contains(path, spl_instruction()),
{
    reveal_strlit("std::cmp::PartialEq::ne");
    reveal_strlit("std::cmp::PartialEq::eq");
    reveal_strlit("spl_token::id");
    reveal_strlit("spl_token::instruction");
    assert forall|i: int| !crate::strs::occurs_at(path, spl_id(), i) by {
        if crate::strs::occurs_at(path, spl_id(), i) {
            assert(path.subrange(i, i + 13)[3] == spl_id()[3]);
            assert(path[i + 3] == '_');
        }
    }
    assert forall|i: int| !crate::strs::occurs_at(path, spl_instruction(), i) by {
        if crate::strs::occurs_at(path, spl_instruction(), i) {
            assert(path.subrange(i, i + 22)[3] == spl_instruction()[3]);
            assert(path[i + 3] == '_');
        }
    }
}

/// Marking an operand keeps every state recorded for a place of the body
/// and every flag that is set.
proof fn lemma_pid_mark_keeps(
    states: Map<FullPlaceView, ProgramId>,
    flags: Seq<bool>,
    cur: DefId,
    tcx: Tcx,
    body: Body,
    op: Operand,
    k: FullPlaceView,
    i: usize,
)
    requires
        k.func == body.def_id,
        states.contains_key(k),
        i < flags.len(),
        flag_of(flags, i),
    ensures
        pid_mark(states, flags, cur, tcx, body, op).0.contains_key(k),
        pid_mark(states, flags, cur, tcx, body, op).0[k] == states[k],
        i < pid_mark(states, flags, cur, tcx, body, op).1.len(),
        flag_of(pid_mark(states, flags, cur, tcx, body, op).1, i),
{
    let (st, s1, f1) = pid_operand(states, flags, cur, tcx, body, op);
    assert(i < f1.len() && f1[i as int]) by {
        match op {
            Operand::Copy(q) => {},
            Operand::Move(q) => {},
            Operand::Constant(_) => {},
        }
    }
    assert(s1.contains_key(k) && s1[k] == states[k]) by {
        match op {
            Operand::Copy(q) => {
                if !states.contains_key(FullPlaceView { func: body.def_id, place: q@ }) {
                    assert(FullPlaceView { func: cur, place: q@ } != k);
                }
            },
            Operand::Move(q) => {
                if !states.contains_key(FullPlaceView { func: body.def_id, place: q@ }) {
                    assert(FullPlaceView { func: cur, place: q@ } != k);
                }
            },
            Operand::Constant(_) => {},
        }
    }
}

/// A program id key compared by `eq` or by `ne` (a call with two operands,
/// the key first) is checked: its flag is set, nothing is reported, and a
/// later `spl_token` instruction (a function under `spl_token::instruction`)
/// with that key as its program id reports nothing. The key is a place of
/// the function being analysed that has a key state, or, when it has none
/// yet, a public key whose base has a state.
pub proof fn law_compared_program_id_is_checked(
    t_compare: Terminator,
    t_call: Terminator,
    p: Place,
    other: Operand,
    body: Body,
    tcx: Tcx,
    span1: u32,
    span2: u32,
    sa: crate::wpa::SmState<ProgramId>,
    ra: Report,
    r1: ProgramId,
    sb: crate::wpa::SmState<ProgramId>,
    rb: Report,
    r2: ProgramId,
    sc: crate::wpa::SmState<ProgramId>,
    rc: Report,
)
    requires
        const_callee(tcx, t_compare) matches Some(f) && (def_path(tcx, f) == "std::cmp::PartialEq::ne"@
            || def_path(tcx, f) == "std::cmp::PartialEq::eq"@),
        call_args(t_compare) == seq![Operand::Copy(p), other],
        sa.stack.len() > 0,
        sa.stack.last() == body.def_id,
        ({
            let k = FullPlaceView { func: body.def_id, place: p@ };
            if sa.states.contains_key(k) {
                sa.states[k].is_key && sa.states[k].checked < sa.flags.len()
            } else {
                pid_pubkey(tcx, body, p@) && (nearest_state(sa.states, body.def_id, p@) matches Some(st)
                    && st.checked < sa.flags.len())
            }
        }),
        ProgramId::terminator_step(t_compare, body, tcx, span1, sa, ra, r1, sb, rb),
        const_callee(tcx, t_call) matches Some(g) && seq_contains(def_path(tcx, g), "spl_token::instruction"@)
            && !seq_contains(def_path(tcx, g), "spl_token::id"@),
        call_args(t_call).len() > 0,
        call_args(t_call)[0] == Operand::Copy(p),
        ProgramId::terminator_step(t_call, body, tcx, span2, sb, rb, r2, sc, rc),
    ensures
        rb == ra,
        rc == rb,
        ({
            let k = FullPlaceView { func: body.def_id, place: p@ };
            sb.states.contains_key(k) && flag_of(sb.flags, sb.states[k].checked)
        }),
{
    let k = FullPlaceView { func: body.def_id, place: p@ };
    let cur = sa.stack.last();
    let f = const_callee(tcx, t_compare)->0;
    lemma_compare_not_spl(def_path(tcx, f));
    let a0 = call_args(t_compare)[0];
    let (st, s1, f1) = pid_operand(sa.states, sa.flags, cur, tcx, body, a0);
    let (m1, g1) = pid_mark(sa.states, sa.flags, cur, tcx, body, a0);
    assert(st.is_key && s1.contains_key(k) && s1[k].checked == st.checked && st.checked < f1.len());
    assert(m1 == s1 && g1 == flags_set(f1, st.checked, true));
    assert(flag_of(g1, st.checked));
    lemma_pid_mark_keeps(m1, g1, cur, tcx, body, call_args(t_compare)[1], k, st.checked);
    let (m2, g2) = pid_mark(m1, g1, cur, tcx, body, call_args(t_compare)[1]);
    assert(pid_compare(sa.states, sa.flags, cur, tcx, body, a0, call_args(t_compare)[1]) == (m2, g2));
    assert(sb.states == m2 && sb.flags == fresh_pid(g2).1);
    assert(flag_of(sb.flags, st.checked));
}

/// An `spl_token` instruction (a function under `spl_token::instruction`)
/// whose program id (the first argument) is a key place that was never
/// checked records one finding (unless the report is full).
pub proof fn law_unchecked_program_id_reported(
    t: Terminator,
    p: Place,
    body: Body,
    tcx: Tcx,
    span: u32,
    sa: crate::wpa::SmState<ProgramId>,
    ra: Report,
    r: ProgramId,
    sb: crate::wpa::SmState<ProgramId>,
    rb: Report,
)
    requires
        const_callee(tcx, t) matches Some(g) && seq_contains(def_path(tcx, g), "spl_token::instruction"@)
            && !seq_contains(def_path(tcx, g), "spl_token::id"@),
        call_args(t).len() > 0,
        call_args(t)[0] == Operand::Copy(p),
        ({
            let k = FullPlaceView { func: body.def_id, place: p@ };
            sa.states.contains_key(k) && sa.states[k].is_key && !flag_of(sa.flags, sa.states[k].checked)
        }),
        ra.total < usize::MAX,
        ProgramId::terminator_step(t, body, tcx, span, sa, ra, r, sb, rb),
    ensures
        rb.total == ra.total + 1,
        rb.oth_cnt == ra.oth_cnt + 1,
{
    crate::checkers::law_finding_counted(
        ra,
        rb,
        tcx,
        sa.stack,
        VulnerabilityType::CrossProgramInvocation,
        def_path(tcx, body.def_id),
        or_empty(spec_source_file(tcx, span)),
        or_empty(spec_source_lines(tcx, body.span)),
        "UnResolved"@,
        false,
    );
}

/// A comparison `==` or `!=` whose first operand is a key place marks that
/// key as checked: its state stays and its flag is set. Nothing is reported.
pub proof fn law_program_id_equality_checks(
    o: BinOp,
    p: Place,
    other: Operand,
    body: Body,
    tcx: Tcx,
    span: u32,
    sa: crate::wpa::SmState<ProgramId>,
    ra: Report,
    r: ProgramId,
    sb: crate::wpa::SmState<ProgramId>,
    rb: Report,
)
    requires
        o == BinOp::Eq || o == BinOp::Ne,
        ({
            let k = FullPlaceView { func: body.def_id, place: p@ };
            sa.states.contains_key(k) && sa.states[k].is_key && sa.states[k].checked < sa.flags.len()
        }),
        ProgramId::rvalue_step(Rvalue::BinaryOp(o, Operand::Copy(p), other), body, tcx, span, sa, ra, r, sb, rb),
    ensures
        rb == ra,
        ({
            let k = FullPlaceView { func: body.def_id, place: p@ };
            sb.states.contains_key(k) && sb.states[k] == sa.states[k] && flag_of(sb.flags, sa.states[k].checked)
        }),
{
    let k = FullPlaceView { func: body.def_id, place: p@ };
    let cur = sa.stack.last();
    let (m1, g1) = pid_mark(sa.states, sa.flags, cur, tcx, body, Operand::Copy(p));
    assert(m1 == sa.states && g1 == flags_set(sa.flags, sa.states[k].checked, true));
    lemma_pid_mark_keeps(m1, g1, cur, tcx, body, other, k, sa.states[k].checked);
}

} // verus!
