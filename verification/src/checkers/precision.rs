//! Checker for calls that round floating-point values.

use vstd::prelude::*;
use crate::checkers::{finding_reported, law_finding_counted, operand_ty, report_finding};
use crate::mir::{
    def_path, place_ty_exec, BinOp, Body, Operand, Place, Rvalue, Tcx, Terminator, TerminatorKind,
};
use crate::reporter::{report_wf, Report, VulnerabilityType};
use crate::source_info::{
    get_source_file, get_source_lines, or_empty, spec_source_file, spec_source_lines,
    unwrap_or_empty,
};
use crate::strs::str_eq;
use crate::wpa::{FullPlaceRef, FullPlaceView, StateMachine, StateTransitor};

verus! {

/// The type of a value and whether it went through a rounding.
#[derive(Debug, Clone, Copy, PartialEq, Eq)]
pub struct RoundChecker {
    /// A type id.
    pub ty: u32,
    pub round: bool,
}

/// The state of a value that nothing is known of: of unit type, not rounded.
pub open spec fn round_dummy(tcx: Tcx) -> RoundChecker {
    RoundChecker { ty: tcx.unit_ty, round: false }
}

/// Whether the operator compares its operands.
pub open spec fn is_comparison(op: BinOp) -> bool {
    op is Eq || op is Lt || op is Le || op is Ne || op is Ge || op is Gt
}

/// The type of the result of a binary operation: `bool` for a comparison,
/// else the type of the left operand (unit where that type is unknown).
pub open spec fn binop_ty(tcx: Tcx, body: Body, op: BinOp, lhs: Operand) -> u32 {
    if is_comparison(op) {
        tcx.bool_ty
    } else {
        match operand_ty(tcx, body, lhs) {
            Some(t) => t,
            None => tcx.unit_ty,
        }
    }
}

/// The state of a place: the one recorded for it, or the dummy state.
pub open spec fn round_place(
    states: Map<FullPlaceView, RoundChecker>,
    tcx: Tcx,
    body: Body,
    p: crate::mir::PlaceView,
) -> RoundChecker {
    let k = FullPlaceView { func: body.def_id, place: p };
    if states.contains_key(k) {
        states[k]
    } else {
        round_dummy(tcx)
    }
}

/// The state of an operand.
pub open spec fn round_operand(
    states: Map<FullPlaceView, RoundChecker>,
    tcx: Tcx,
    body: Body,
    op: Operand,
) -> RoundChecker {
    match op {
        Operand::Copy(p) => round_place(states, tcx, body, p@),
        Operand::Move(p) => round_place(states, tcx, body, p@),
        Operand::Constant(_) => round_dummy(tcx),
    }
}

/// The state of an rvalue: a binary operation has its result type and is
/// rounded when an operand is; a use, reference, cast or unary operation
/// passes its operand's state on.
pub open spec fn round_rvalue(
    states: Map<FullPlaceView, RoundChecker>,
    tcx: Tcx,
    body: Body,
    rv: Rvalue,
) -> RoundChecker {
    match rv {
        Rvalue::Use(op) => round_operand(states, tcx, body, op),
        Rvalue::Ref(p) => round_place(states, tcx, body, p@),
        Rvalue::Cast(op, _) => round_operand(states, tcx, body, op),
        Rvalue::BinaryOp(op, a, b) => RoundChecker {
            ty: binop_ty(tcx, body, op, a),
            round: round_operand(states, tcx, body, a).round || round_operand(
                states,
                tcx,
                body,
                b,
            ).round,
        },
        Rvalue::UnaryOp(op) => round_operand(states, tcx, body, op),
        _ => round_dummy(tcx),
    }
}

/// The functions that round a floating-point value.
pub open spec fn is_round_fn(name: Seq<char>) -> bool {
    name == "std::f64::<impl f64>::round"@ || name == "std::f32::<impl f32>::round"@
}

/// Whether the terminator calls a rounding function.
pub open spec fn is_round_call(terminator: Terminator) -> bool {
    match terminator.kind {
        TerminatorKind::Call { func: Operand::Constant(c), .. } => is_round_fn(c.display@),
        _ => false,
    }
}

impl RoundChecker {
    fn dummy(tcx: &Tcx) -> (r: Self)
        ensures
            r == round_dummy(*tcx),
    {
        RoundChecker { ty: tcx.unit_ty, round: false }
    }
}

impl StateTransitor for RoundChecker {
    open spec fn rvalue_step(
        rvalue: Rvalue,
        body: Body,
        tcx: Tcx,
        span: u32,
        sa: crate::wpa::SmState<Self>,
        ra: Report,
        r: Self,
        sb: crate::wpa::SmState<Self>,
        rb: Report,
    ) -> bool {
        &&& (sb == sa)
        &&& (rb == ra)
        &&& (r == round_rvalue(sa.states, tcx, body, rvalue))
    }

    open spec fn operand_step(
        op: Operand,
        body: Body,
        tcx: Tcx,
        span: u32,
        sa: crate::wpa::SmState<Self>,
        ra: Report,
        r: Self,
        sb: crate::wpa::SmState<Self>,
        rb: Report,
    ) -> bool {
        &&& (sb == sa)
        &&& (rb == ra)
        &&& (r == round_operand(sa.states, tcx, body, op))
    }

    open spec fn place_step(
        place: crate::mir::PlaceView,
        body: Body,
        tcx: Tcx,
        span: Option<u32>,
        sa: crate::wpa::SmState<Self>,
        ra: Report,
        r: Self,
        sb: crate::wpa::SmState<Self>,
        rb: Report,
    ) -> bool {
        &&& (sb == sa)
        &&& (rb == ra)
        &&& (r == round_place(sa.states, tcx, body, place))
    }

    open spec fn init_step(
        place: crate::mir::PlaceView,
        body: Body,
        tcx: Tcx,
        sa: crate::wpa::SmState<Self>,
        ra: Report,
        r: Self,
        sb: crate::wpa::SmState<Self>,
        rb: Report,
    ) -> bool {
        &&& (sb == sa)
        &&& (rb == ra)
        &&& (r == round_dummy(tcx))
    }

    open spec fn terminator_step(
        terminator: Terminator,
        body: Body,
        tcx: Tcx,
        span: u32,
        sa: crate::wpa::SmState<Self>,
        ra: Report,
        r: Self,
        sb: crate::wpa::SmState<Self>,
        rb: Report,
    ) -> bool {
        &&& (sb == sa)
        &&& (r == (RoundChecker { ty: tcx.unit_ty, round: true }))
        &&& (if is_round_call(terminator) {
                    finding_reported(
                        ra,
                        rb,
                        tcx,
                        sa.stack,
                        VulnerabilityType::Precision,
                        def_path(tcx, body.def_id),
                        or_empty(spec_source_file(tcx, span)),
                        or_empty(spec_source_lines(tcx, body.span)),
                        "UnResolved"@,
                        false,
                    )
                } else {
                    rb == ra
                })
    }

    open spec fn spec_compute_func(body: Body, tcx: Tcx, flags: Seq<bool>) -> Option<Self> {
        None
    }

    open spec fn spec_compute_func_flags(body: Body, tcx: Tcx, flags: Seq<bool>) -> Seq<bool> {
        flags
    }

    /// This analysis keeps no state per function.
    fn compute_func(body: &Body, tcx: &Tcx, sm: &mut StateMachine<Self>) -> (r: Option<Self>)
        ensures
            *final(sm) == *old(sm),
    {
        None
    }

    open spec fn spec_report_func(
        body: Body,
        tcx: Tcx,
        state: Self,
        func_states: Map<crate::mir::DefId, Self>,
        stack: Seq<crate::mir::DefId>,
        flags: Seq<bool>,
        before: Report,
        after: Report,
    ) -> bool {
        after == before
    }

    /// This analysis reports nothing once a function has been analysed.
    fn report_func(
        body: &Body,
        tcx: &Tcx,
        state: Self,
        sm: &mut StateMachine<Self>,
        report: &mut Report,
    )
        ensures
            *final(sm) == *old(sm),
            *final(report) == *old(report),
    {
    }

    open spec fn spec_merge(self, other: Self, tcx: Tcx, flags: Seq<bool>) -> Self {
        round_dummy(tcx)
    }

    open spec fn spec_merge_flags(self, other: Self, flags: Seq<bool>) -> Seq<bool> {
        flags
    }

    fn dup(&self) -> (r: Self) {
        *self
    }

    fn compute_rvalue(
        rvalue: &Rvalue,
        body: &Body,
        tcx: &Tcx,
        sm: &mut StateMachine<Self>,
        report: &mut Report,
        span: u32,
    ) -> (r: Self)
        ensures
            *final(sm) == *old(sm),
            *final(report) == *old(report),
            r == round_rvalue(old(sm).states(), *tcx, *body, *rvalue),
    {
        match rvalue {
            Rvalue::Use(op) => Self::compute_operand(op, body, tcx, sm, report, span),
            Rvalue::Ref(place) => Self::compute_place(place, body, tcx, sm, report, Some(span)),
            Rvalue::Cast(op, _ty) => Self::compute_operand(op, body, tcx, sm, report, span),
            Rvalue::BinaryOp(op, op1, op2) => {
                let st1 = Self::compute_operand(op1, body, tcx, sm, report, span);
                let st2 = Self::compute_operand(op2, body, tcx, sm, report, span);
                let ty = match op {
                    BinOp::Eq | BinOp::Lt | BinOp::Le | BinOp::Ne | BinOp::Ge | BinOp::Gt => {
                        tcx.bool_ty
                    },
                    _ => {
                        let lhs = match op1 {
                            Operand::Copy(p) | Operand::Move(p) => place_ty_exec(tcx, body, p),
                            Operand::Constant(c) => Some(c.ty),
                        };
                        match lhs {
                            Some(t) => t,
                            None => tcx.unit_ty,
                        }
                    },
                };
                RoundChecker { ty, round: st1.round || st2.round }
            },
            Rvalue::UnaryOp(op) => Self::compute_operand(op, body, tcx, sm, report, span),
            _ => Self::dummy(tcx),
        }
    }

    fn compute_operand(
        op: &Operand,
        body: &Body,
        tcx: &Tcx,
        sm: &mut StateMachine<Self>,
        report: &mut Report,
        span: u32,
    ) -> (r: Self)
        ensures
            *final(sm) == *old(sm),
            *final(report) == *old(report),
            r == round_operand(old(sm).states(), *tcx, *body, *op),
    {
        match op {
            Operand::Copy(from) | Operand::Move(from) => Self::compute_place(
                from,
                body,
                tcx,
                sm,
                report,
                Some(span),
            ),
            Operand::Constant(_) => Self::dummy(tcx),
        }
    }

    fn compute_place(
        place: &Place,
        body: &Body,
        tcx: &Tcx,
        sm: &mut StateMachine<Self>,
        report: &mut Report,
        span: Option<u32>,
    ) -> (r: Self)
        ensures
            *final(sm) == *old(sm),
            *final(report) == *old(report),
            r == round_place(old(sm).states(), *tcx, *body, place@),
    {
        let key = FullPlaceRef::new(body.def_id, place.copy_place());
        match sm.get_state(&key) {
            Some(st) => *st,
            None => Self::dummy(tcx),
        }
    }

    fn init_place(
        place: &Place,
        body: &Body,
        tcx: &Tcx,
        sm: &mut StateMachine<Self>,
        report: &mut Report,
    ) -> (r: Self)
        ensures
            *final(sm) == *old(sm),
            *final(report) == *old(report),
            r == round_dummy(*tcx),
    {
        Self::dummy(tcx)
    }

    fn merge(&self, other: Self, body: &Body, tcx: &Tcx, sm: &mut StateMachine<Self>) -> (r: Self)
        ensures
            *final(sm) == *old(sm),
    {
        Self::dummy(tcx)
    }

    /// A call of a rounding function is reported, with the file of the call
    /// and the function's source; every terminator yields a rounded value
    /// of unit type.
    fn compute_terminator(
        terminator: &Terminator,
        body: &Body,
        tcx: &Tcx,
        sm: &mut StateMachine<Self>,
        report: &mut Report,
        span: u32,
    ) -> (r: Self)
        ensures
            *final(sm) == *old(sm),
            r == (RoundChecker { ty: tcx.unit_ty, round: true }),
            if is_round_call(*terminator) {
                finding_reported(
                    *old(report),
                    *final(report),
                    *tcx,
                    old(sm).stack(),
                    VulnerabilityType::Precision,
                    def_path(*tcx, body.def_id),
                    or_empty(spec_source_file(*tcx, span)),
                    or_empty(spec_source_lines(*tcx, body.span)),
                    "UnResolved"@,
                    false,
                )
            } else {
                *final(report) == *old(report)
            },
    {
        proof {
            reveal_strlit("std::f64::<impl f64>::round");
            reveal_strlit("std::f32::<impl f32>::round");
            reveal_strlit("UnResolved");
        }
        match &terminator.kind {
            TerminatorKind::Call { func: Operand::Constant(c), .. } => {
                if str_eq(c.display.as_str(), "std::f64::<impl f64>::round") || str_eq(
                    c.display.as_str(),
                    "std::f32::<impl f32>::round",
                ) {
                    let fname = tcx.def_path_str(body.def_id);
                    let code = unwrap_or_empty(get_source_file(tcx, span));
                    let context = unwrap_or_empty(get_source_lines(tcx, body.span));
                    report_finding(
                        report,
                        tcx,
                        sm.get_call_stack(),
                        VulnerabilityType::Precision,
                        fname,
                        code,
                        context,
                        String::from_str("UnResolved"),
                        false,
                    );
                }
            },
            _ => {},
        }
        RoundChecker { ty: tcx.unit_ty, round: true }
    }
}

/// A call of the `round` of `f32`, like that of `f64`, records one
/// precision finding for the calling function (unless the report is full);
/// every terminator gives a rounded value of unit type and leaves the
/// states alone.
pub proof fn law_round_call_reported(
    t: Terminator,
    body: Body,
    tcx: Tcx,
    span: u32,
    sa: crate::wpa::SmState<RoundChecker>,
    ra: Report,
    r: RoundChecker,
    sb: crate::wpa::SmState<RoundChecker>,
    rb: Report,
)
    requires
        t.kind matches TerminatorKind::Call { func: Operand::Constant(c), .. } && (c.display@
            == "std::f32::<impl f32>::round"@ || c.display@ == "std::f64::<impl f64>::round"@),
        RoundChecker::terminator_step(t, body, tcx, span, sa, ra, r, sb, rb),
    ensures
        sb == sa,
        r == (RoundChecker { ty: tcx.unit_ty, round: true }),
        ra.total < usize::MAX ==> rb.total == ra.total + 1 && rb.oth_cnt == ra.oth_cnt + 1,
{
    if ra.total < usize::MAX {
        law_finding_counted(
            ra,
            rb,
            tcx,
            sa.stack,
            VulnerabilityType::Precision,
            def_path(tcx, body.def_id),
            or_empty(spec_source_file(tcx, span)),
            or_empty(spec_source_lines(tcx, body.span)),
            "UnResolved"@,
            false,
        );
    }
}

/// A terminator that is not a call of the `round` of `f32` or `f64` reports
/// nothing.
pub proof fn law_other_terminator_not_reported(
    t: Terminator,
    body: Body,
    tcx: Tcx,
    span: u32,
    sa: crate::wpa::SmState<RoundChecker>,
    ra: Report,
    r: RoundChecker,
    sb: crate::wpa::SmState<RoundChecker>,
    rb: Report,
)
    requires
        !(t.kind matches TerminatorKind::Call { func: Operand::Constant(c), .. } && (c.display@
            == "std::f32::<impl f32>::round"@ || c.display@ == "std::f64::<impl f64>::round"@)),
        RoundChecker::terminator_step(t, body, tcx, span, sa, ra, r, sb, rb),
    ensures
        rb == ra,
        sb == sa,
{
}

} // verus!
