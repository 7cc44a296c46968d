//! Checker for integer overflow and underflow on values from outside the program.

use vstd::prelude::*;
use crate::checkers::{
    downcast_continue, find_nearest_state, finding_reported, has_downcast_continue, is_numeric,
    law_finding_counted, nearest_state, operand_ty, report_finding,
};
use crate::conf::{contains_any, contains_any_exec, strings_view};
use crate::mir::{
    def_path, is_arg_local, place_ty, ty_of, BinOp, Body, Operand, Place, Rvalue, Tcx, Terminator,
    TerminatorKind, TyKind,
};
use crate::reporter::{callstack_blacklisted, callstack_signature, report_wf, Report, VulnerabilityType};
use crate::source_info::{get_source_lines, or_empty, spec_source_lines, unwrap_or_empty};
use crate::strs::str_eq;
use crate::wpa::{StateMachine, StateTransitor};

verus! {

/// The function whose results come from outside the program.
pub open spec fn spec_deserialize() -> Seq<char> {
    "BorshDeserialize::deserialize"@
}

/// Functions in which arithmetic is not checked.
pub open spec fn spec_whitelist() -> Seq<Seq<char>> {
    seq!["minimum_balance"@]
}

/// Whether arithmetic in the function is not checked.
pub fn should_filter(fname: &String) -> (r: bool)
    ensures
        r == contains_any(fname@, spec_whitelist()),
{
    let list = vec![String::from_str("minimum_balance")];
    proof {
        reveal_strlit("minimum_balance");
        assert(strings_view(list@) =~= spec_whitelist());
    }
    contains_any_exec(fname, &list)
}

/// Whether a value may come from outside the program.
#[derive(Debug, Clone, Copy, PartialEq, Eq)]
pub struct ExternalNumeric {
    pub external: bool,
}

impl ExternalNumeric {
    /// A value that does not come from outside the program.
    pub fn default() -> (r: Self)
        ensures
            !r.external,
    {
        ExternalNumeric { external: false }
    }
}

/// Whether a place's value may come from outside: as its nearest recorded
/// base says (or when it is reached through a `Continue` downcast), or, when
/// no base is recorded, when it is a parameter.
pub open spec fn place_external(
    states: Map<crate::wpa::FullPlaceView, ExternalNumeric>,
    tcx: Tcx,
    body: Body,
    p: crate::mir::PlaceView,
) -> bool {
    match nearest_state(states, body.def_id, p) {
        Some(st) => st.external || downcast_continue(tcx, p),
        None => is_arg_local(body, p.local),
    }
}

/// Whether an operand's value may come from outside.
pub open spec fn operand_external(
    states: Map<crate::wpa::FullPlaceView, ExternalNumeric>,
    tcx: Tcx,
    body: Body,
    op: Operand,
) -> bool {
    match op {
        Operand::Copy(p) => place_external(states, tcx, body, p@),
        Operand::Move(p) => place_external(states, tcx, body, p@),
        Operand::Constant(_) => false,
    }
}

/// The binary operations that can overflow.
pub open spec fn is_arith(op: BinOp) -> bool {
    op == BinOp::Add || op == BinOp::Sub || op == BinOp::Mul || op == BinOp::Div
}

/// Whether an arithmetic operation on these operands is reported.
pub open spec fn overflow_suspect(
    states: Map<crate::wpa::FullPlaceView, ExternalNumeric>,
    tcx: Tcx,
    body: Body,
    op1: Operand,
    op2: Operand,
) -> bool {
    ((is_numeric(tcx, operand_ty(tcx, body, op1)) && operand_external(states, tcx, body, op1)) || (
    is_numeric(tcx, operand_ty(tcx, body, op2)) && operand_external(states, tcx, body, op2)))
        && !contains_any(def_path(tcx, body.def_id), spec_whitelist())
}

/// Whether the value of the rvalue may come from outside.
pub open spec fn rvalue_external(
    states: Map<crate::wpa::FullPlaceView, ExternalNumeric>,
    tcx: Tcx,
    body: Body,
    rvalue: Rvalue,
) -> bool {
    match rvalue {
        Rvalue::Use(op) => operand_external(states, tcx, body, op),
        Rvalue::Ref(p) => place_external(states, tcx, body, p@),
        Rvalue::Cast(op, _) => operand_external(states, tcx, body, op),
        Rvalue::BinaryOp(op, a, b) => is_arith(op) && (operand_external(states, tcx, body, a)
            || operand_external(states, tcx, body, b)),
        Rvalue::CheckedBinaryOp(op, a, b) => is_arith(op) && (operand_external(states, tcx, body, a)
            || operand_external(states, tcx, body, b)),
        Rvalue::UnaryOp(op) => operand_external(states, tcx, body, op),
        _ => false,
    }
}

/// The operands of an arithmetic rvalue that is reported, if it is one.
pub open spec fn rvalue_suspect(
    states: Map<crate::wpa::FullPlaceView, ExternalNumeric>,
    tcx: Tcx,
    body: Body,
    rvalue: Rvalue,
) -> bool {
    match rvalue {
        Rvalue::BinaryOp(op, a, b) => is_arith(op) && overflow_suspect(states, tcx, body, a, b),
        Rvalue::CheckedBinaryOp(op, a, b) => is_arith(op) && overflow_suspect(states, tcx, body, a, b),
        _ => false,
    }
}

/// Whether the type of an operand is numeric.
fn operand_is_numeric(op: &Operand, body: &Body, tcx: &Tcx) -> (r: bool)
    ensures
        r == is_numeric(*tcx, operand_ty(*tcx, *body, *op)),
{
    let t = match op {
        Operand::Copy(p) | Operand::Move(p) => crate::mir::place_ty_exec(tcx, body, p),
        Operand::Constant(c) => Some(c.ty),
    };
    match t {
        Some(t) => match tcx.ty(t) {
            Some(d) => match &d.kind {
                TyKind::Numeric => true,
                _ => false,
            },
            None => false,
        },
        None => false,
    }
}

impl StateTransitor for ExternalNumeric {
    open spec fn rvalue_step(
        rvalue: Rvalue,
        body: Body,
        tcx: Tcx,
        span: u32,
        sa: crate::wpa::SmState<Self>,
        ra: Report,
        r: Self,
        sb: crate::wpa::SmState<Self>,
        rb: Report,
    ) -> bool {
        &&& (sb == sa)
        &&& (r.external == rvalue_external(sa.states, tcx, body, rvalue))
        &&& (if rvalue_suspect(sa.states, tcx, body, rvalue) {
                    finding_reported(
                        ra,
                        rb,
                        tcx,
                        sa.stack,
                        VulnerabilityType::IntegerFlow,
                        def_path(tcx, body.def_id),
                        or_empty(spec_source_lines(tcx, span)),
                        or_empty(spec_source_lines(tcx, body.span)),
                        "UnResolved"@,
                        true,
                    )
                } else {
                    rb == ra
                })
    }

    open spec fn operand_step(
        op: Operand,
        body: Body,
        tcx: Tcx,
        span: u32,
        sa: crate::wpa::SmState<Self>,
        ra: Report,
        r: Self,
        sb: crate::wpa::SmState<Self>,
        rb: Report,
    ) -> bool {
        &&& (sb == sa)
        &&& (rb == ra)
        &&& (r.external == operand_external(sa.states, tcx, body, op))
    }

    open spec fn place_step(
        place: crate::mir::PlaceView,
        body: Body,
        tcx: Tcx,
        span: Option<u32>,
        sa: crate::wpa::SmState<Self>,
        ra: Report,
        r: Self,
        sb: crate::wpa::SmState<Self>,
        rb: Report,
    ) -> bool {
        &&& (sb == sa)
        &&& (rb == ra)
        &&& (r.external == place_external(sa.states, tcx, body, place))
    }

    open spec fn init_step(
        place: crate::mir::PlaceView,
        body: Body,
        tcx: Tcx,
        sa: crate::wpa::SmState<Self>,
        ra: Report,
        r: Self,
        sb: crate::wpa::SmState<Self>,
        rb: Report,
    ) -> bool {
        &&& (sb == sa)
        &&& (rb == ra)
        &&& (r.external == place_external(sa.states, tcx, body, place))
    }

    open spec fn terminator_step(
        terminator: Terminator,
        body: Body,
        tcx: Tcx,
        span: u32,
        sa: crate::wpa::SmState<Self>,
        ra: Report,
        r: Self,
        sb: crate::wpa::SmState<Self>,
        rb: Report,
    ) -> bool {
        &&& (sb == sa)
        &&& (rb == ra)
        &&& (r.external == (match terminator.kind {
                    TerminatorKind::Call { func: Operand::Constant(c), destination, .. } => match ty_of(tcx, c.ty) {
                        Some(d) => match d.kind {
                            TyKind::FnDef(f) => def_path(tcx, f) == spec_deserialize()
                                && destination.is_some(),
                            _ => false,
                        },
                        None => false,
                    },
                    _ => false,
                }))
    }

    open spec fn spec_compute_func(body: Body, tcx: Tcx, flags: Seq<bool>) -> Option<Self> {
        None
    }

    open spec fn spec_compute_func_flags(body: Body, tcx: Tcx, flags: Seq<bool>) -> Seq<bool> {
        flags
    }

    /// This analysis keeps no state per function.
    fn compute_func(body: &Body, tcx: &Tcx, sm: &mut StateMachine<Self>) -> (r: Option<Self>)
        ensures
            *final(sm) == *old(sm),
    {
        None
    }

    open spec fn spec_report_func(
        body: Body,
        tcx: Tcx,
        state: Self,
        func_states: Map<crate::mir::DefId, Self>,
        stack: Seq<crate::mir::DefId>,
        flags: Seq<bool>,
        before: Report,
        after: Report,
    ) -> bool {
        after == before
    }

    /// This analysis reports nothing once a function has been analysed.
    fn report_func(
        body: &Body,
        tcx: &Tcx,
        state: Self,
        sm: &mut StateMachine<Self>,
        report: &mut Report,
    )
        ensures
            *final(sm) == *old(sm),
            *final(report) == *old(report),
    {
    }

    open spec fn spec_merge(self, other: Self, tcx: Tcx, flags: Seq<bool>) -> Self {
        ExternalNumeric { external: self.external || other.external }
    }

    open spec fn spec_merge_flags(self, other: Self, flags: Seq<bool>) -> Seq<bool> {
        flags
    }

    fn dup(&self) -> (r: Self) {
        *self
    }

    /// An arithmetic operation on a numeric value from outside is reported
    /// (unless the function is filtered, or the call stack was seen before
    /// or passes a blacklisted function); its result comes from outside.
    fn compute_rvalue(
        rvalue: &Rvalue,
        body: &Body,
        tcx: &Tcx,
        sm: &mut StateMachine<Self>,
        report: &mut Report,
        span: u32,
    ) -> (r: Self)
        ensures
            *final(sm) == *old(sm),
            r.external == rvalue_external(old(sm).states(), *tcx, *body, *rvalue),
            if rvalue_suspect(old(sm).states(), *tcx, *body, *rvalue) {
                finding_reported(
                    *old(report),
                    *final(report),
                    *tcx,
                    old(sm).stack(),
                    VulnerabilityType::IntegerFlow,
                    def_path(*tcx, body.def_id),
                    or_empty(spec_source_lines(*tcx, span)),
                    or_empty(spec_source_lines(*tcx, body.span)),
                    "UnResolved"@,
                    true,
                )
            } else {
                *final(report) == *old(report)
            },
    {
        match rvalue {
            Rvalue::Use(op) => Self::compute_operand(op, body, tcx, sm, report, span),
            Rvalue::Ref(place) => Self::compute_place(place, body, tcx, sm, report, Some(span)),
            Rvalue::Cast(op, _ty) => Self::compute_operand(op, body, tcx, sm, report, span),
            Rvalue::BinaryOp(op, op1, op2) | Rvalue::CheckedBinaryOp(op, op1, op2) => {
                match op {
                    BinOp::Add | BinOp::Sub | BinOp::Mul | BinOp::Div => {},
                    _ => {
                        return ExternalNumeric::default();
                    },
                }
                let st1 = Self::compute_operand(op1, body, tcx, sm, report, span);
                let st2 = Self::compute_operand(op2, body, tcx, sm, report, span);
                let fname = tcx.def_path_str(body.def_id);
                if ((operand_is_numeric(op1, body, tcx) && st1.external) || (operand_is_numeric(
                    op2,
                    body,
                    tcx,
                ) && st2.external)) && !should_filter(&fname) {
                    let code = unwrap_or_empty(get_source_lines(tcx, span));
                    let context = unwrap_or_empty(get_source_lines(tcx, body.span));
                    proof {
                        reveal_strlit("UnResolved");
                    }
                    report_finding(
                        report,
                        tcx,
                        sm.get_call_stack(),
                        VulnerabilityType::IntegerFlow,
                        fname,
                        code,
                        context,
                        String::from_str("UnResolved"),
                        true,
                    );
                }
                ExternalNumeric { external: st1.external || st2.external }
            },
            Rvalue::UnaryOp(op) => Self::compute_operand(op, body, tcx, sm, report, span),
            _ => ExternalNumeric::default(),
        }
    }

    fn compute_operand(
        op: &Operand,
        body: &Body,
        tcx: &Tcx,
        sm: &mut StateMachine<Self>,
        report: &mut Report,
        span: u32,
    ) -> (r: Self)
        ensures
            *final(sm) == *old(sm),
            *final(report) == *old(report),
            r.external == operand_external(old(sm).states(), *tcx, *body, *op),
    {
        match op {
            Operand::Copy(from) | Operand::Move(from) => Self::compute_place(
                from,
                body,
                tcx,
                sm,
                report,
                Some(span),
            ),
            Operand::Constant(_) => ExternalNumeric { external: false },
        }
    }

    /// If a base of the place has a state, the place inherits it; otherwise
    /// the place comes from outside when it is a parameter.
    fn compute_place(
        place: &Place,
        body: &Body,
        tcx: &Tcx,
        sm: &mut StateMachine<Self>,
        report: &mut Report,
        span: Option<u32>,
    ) -> (r: Self)
        ensures
            *final(sm) == *old(sm),
            *final(report) == *old(report),
            r.external == place_external(old(sm).states(), *tcx, *body, place@),
    {
        let external_from_downcast = has_downcast_continue(tcx, place);
        match find_nearest_state(sm, body.def_id, place) {
            Some(st) => ExternalNumeric { external: st.external || external_from_downcast },
            None => {
                let local_index = place.local as usize;
                let external = 1usize <= local_index && local_index <= body.arg_count;
                ExternalNumeric { external }
            },
        }
    }

    fn init_place(
        place: &Place,
        body: &Body,
        tcx: &Tcx,
        sm: &mut StateMachine<Self>,
        report: &mut Report,
    ) -> (r: Self)
        ensures
            *final(sm) == *old(sm),
            *final(report) == *old(report),
            r.external == place_external(old(sm).states(), *tcx, *body, place@),
    {
        Self::compute_place(place, body, tcx, sm, report, None)
    }

    fn merge(&self, other: Self, body: &Body, tcx: &Tcx, sm: &mut StateMachine<Self>) -> (r: Self)
        ensures
            *final(sm) == *old(sm),
    {
        ExternalNumeric { external: self.external || other.external }
    }

    /// The result of a deserialization comes from outside.
    fn compute_terminator(
        terminator: &Terminator,
        body: &Body,
        tcx: &Tcx,
        sm: &mut StateMachine<Self>,
        report: &mut Report,
        span: u32,
    ) -> (r: Self)
        ensures
            *final(sm) == *old(sm),
            *final(report) == *old(report),
            r.external == (match terminator.kind {
                TerminatorKind::Call { func: Operand::Constant(c), destination, .. } => match ty_of(*tcx, c.ty) {
                    Some(d) => match d.kind {
                        TyKind::FnDef(f) => def_path(*tcx, f) == spec_deserialize()
                            && destination.is_some(),
                        _ => false,
                    },
                    None => false,
                },
                _ => false,
            }),
    {
        match &terminator.kind {
            TerminatorKind::Call { func: Operand::Constant(c), destination, .. } => {
                match tcx.ty(c.ty) {
                    Some(d) => match &d.kind {
                        TyKind::FnDef(f) => {
                            let func_name = tcx.def_path_str(*f);
                            proof {
                                reveal_strlit("BorshDeserialize::deserialize");
                            }
                            if str_eq(func_name.as_str(), "BorshDeserialize::deserialize") {
                                if destination.is_some() {
                                    return ExternalNumeric { external: true };
                                }
                            }
                        },
                        _ => {},
                    },
                    None => {},
                }
            },
            _ => {},
        }
        ExternalNumeric::default()
    }
}

/// Addition, subtraction, multiplication and division, plain or checked,
/// are all checked alike: the result comes from outside exactly when an
/// operand does, and when a numeric operand comes from outside (in a
/// function that is not whitelisted) one integer-overflow finding is
/// recorded, unless its call stack was seen before or is blacklisted, the
/// report is full, or its code was reported before; otherwise nothing is
/// reported.
pub proof fn law_arith_from_outside_reported(
    op: BinOp,
    a: Operand,
    b: Operand,
    checked: bool,
    body: Body,
    tcx: Tcx,
    span: u32,
    sa: crate::wpa::SmState<ExternalNumeric>,
    ra: Report,
    r: ExternalNumeric,
    sb: crate::wpa::SmState<ExternalNumeric>,
    rb: Report,
)
    requires
        op == BinOp::Add || op == BinOp::Sub || op == BinOp::Mul || op == BinOp::Div,
        ExternalNumeric::rvalue_step(
            if checked { Rvalue::CheckedBinaryOp(op, a, b) } else { Rvalue::BinaryOp(op, a, b) },
            body,
            tcx,
            span,
            sa,
            ra,
            r,
            sb,
            rb,
        ),
    ensures
        sb == sa,
        r.external == (operand_external(sa.states, tcx, body, a) || operand_external(sa.states, tcx, body, b)),
        ({
            let suspect = ((is_numeric(tcx, operand_ty(tcx, body, a)) && operand_external(sa.states, tcx, body, a))
                || (is_numeric(tcx, operand_ty(tcx, body, b)) && operand_external(sa.states, tcx, body, b)))
                && !contains_any(def_path(tcx, body.def_id), spec_whitelist());
            &&& !suspect ==> rb == ra
            &&& (suspect && ra.total < usize::MAX && !callstack_blacklisted(tcx, sa.stack)
                && !strings_view(ra.filtered@).contains(callstack_signature(tcx, sa.stack, sa.stack.len()))
                && !strings_view(ra.vulns_code@).contains(or_empty(spec_source_lines(tcx, span))))
                ==> rb.total == ra.total + 1 && rb.int_cnt == ra.int_cnt + 1
        }),
{
    let suspect = ((is_numeric(tcx, operand_ty(tcx, body, a)) && operand_external(sa.states, tcx, body, a))
        || (is_numeric(tcx, operand_ty(tcx, body, b)) && operand_external(sa.states, tcx, body, b)))
        && !contains_any(def_path(tcx, body.def_id), spec_whitelist());
    if suspect && ra.total < usize::MAX && !callstack_blacklisted(tcx, sa.stack)
        && !strings_view(ra.filtered@).contains(callstack_signature(tcx, sa.stack, sa.stack.len()))
        && !strings_view(ra.vulns_code@).contains(or_empty(spec_source_lines(tcx, span))) {
        law_finding_counted(
            ra,
            rb,
            tcx,
            sa.stack,
            VulnerabilityType::IntegerFlow,
            def_path(tcx, body.def_id),
            or_empty(spec_source_lines(tcx, span)),
            or_empty(spec_source_lines(tcx, body.span)),
            "UnResolved"@,
            true,
        );
    }
}

/// The result of a call of `BorshDeserialize::deserialize` that has a
/// destination comes from outside; no other terminator gives a value from
/// outside. Nothing is reported.
pub proof fn law_deserialized_is_external(
    t: Terminator,
    body: Body,
    tcx: Tcx,
    span: u32,
    sa: crate::wpa::SmState<ExternalNumeric>,
    ra: Report,
    r: ExternalNumeric,
    sb: crate::wpa::SmState<ExternalNumeric>,
    rb: Report,
)
    requires
        ExternalNumeric::terminator_step(t, body, tcx, span, sa, ra, r, sb, rb),
    ensures
        sb == sa && rb == ra,
        r.external <==> (t.kind matches TerminatorKind::Call { func: Operand::Constant(c), destination, .. } && (
        ty_of(tcx, c.ty) matches Some(d) && (d.kind matches TyKind::FnDef(f) && def_path(tcx, f)
            == "BorshDeserialize::deserialize"@ && destination is Some))),
{
}

/// A parameter of the function, read where no state is recorded for it or
/// its bases, comes from outside; any other local without a recorded state
/// does not. Reading changes nothing.
pub proof fn law_parameter_is_external(
    p: crate::mir::PlaceView,
    body: Body,
    tcx: Tcx,
    span: Option<u32>,
    sa: crate::wpa::SmState<ExternalNumeric>,
    ra: Report,
    r: ExternalNumeric,
    sb: crate::wpa::SmState<ExternalNumeric>,
    rb: Report,
)
    requires
        ExternalNumeric::place_step(p, body, tcx, span, sa, ra, r, sb, rb),
        nearest_state(sa.states, body.def_id, p) is None,
    ensures
        sb == sa && rb == ra,
        r.external <==> (1 <= p.local && p.local <= body.arg_count),
{
}

/// A binary operation other than addition, subtraction, multiplication and
/// division, plain or checked, is not checked: its result does not come from
/// outside, and nothing is reported.
pub proof fn law_other_binop_unchecked(
    op: BinOp,
    a: Operand,
    b: Operand,
    checked: bool,
    body: Body,
    tcx: Tcx,
    span: u32,
    sa: crate::wpa::SmState<ExternalNumeric>,
    ra: Report,
    r: ExternalNumeric,
    sb: crate::wpa::SmState<ExternalNumeric>,
    rb: Report,
)
    requires
        !(op == BinOp::Add || op == BinOp::Sub || op == BinOp::Mul || op == BinOp::Div),
        ExternalNumeric::rvalue_step(
            if checked { Rvalue::CheckedBinaryOp(op, a, b) } else { Rvalue::BinaryOp(op, a, b) },
            body,
            tcx,
            span,
            sa,
            ra,
            r,
            sb,
            rb,
        ),
    ensures
        sb == sa,
        rb == ra,
        !r.external,
{
}

} // verus!
