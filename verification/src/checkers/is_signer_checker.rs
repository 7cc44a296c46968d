//! State for tracking signer checks: whether a value has been checked to
//! be a signer, the signer variable's name, and the functions already
//! checked.

use vstd::prelude::*;
use crate::collections::{shared_place_set_contents, SharedPlaceSet};
use crate::mir::{Body, Operand, Place, Rvalue, Tcx, Terminator};
use crate::reporter::Report;
use crate::wpa::{StateMachine, StateTransitor};

verus! {

/// What is known of a value with respect to signer checks.
#[allow(non_camel_case_types)]
pub struct is_signer_checker {
    pub has_signer_check: bool,
    pub has_signer_var: bool,
    pub signer_var_name: String,
    /// The functions already checked, shared by every copy of the state.
    pub checked_funcs: SharedPlaceSet,
}

/// The length of a string in bytes, in UTF-8, as `str::len` gives it.
pub open spec fn utf8_len(s: Seq<char>) -> usize {
    vstd::utf8::encode_utf8(s).len() as usize
}

/// The state of a value of which nothing is known.
pub open spec fn is_signer_unknown(st: is_signer_checker) -> bool {
    &&& !st.has_signer_check
    &&& !st.has_signer_var
    &&& st.signer_var_name@ == Seq::<char>::empty()
    &&& shared_place_set_contents(st.checked_funcs) == Set::<crate::wpa::FullPlaceView>::empty()
}

impl Default for is_signer_checker {
    fn default() -> (r: Self)
        ensures
            is_signer_unknown(r),
    {
        is_signer_checker {
            has_signer_check: false,
            has_signer_var: false,
            signer_var_name: String::new(),
            checked_funcs: SharedPlaceSet::new(),
        }
    }
}

impl StateTransitor for is_signer_checker {
    open spec fn rvalue_step(
        rvalue: Rvalue,
        body: Body,
        tcx: Tcx,
        span: u32,
        sa: crate::wpa::SmState<Self>,
        ra: Report,
        r: Self,
        sb: crate::wpa::SmState<Self>,
        rb: Report,
    ) -> bool {
        &&& (sb == sa)
        &&& (rb == ra)
        &&& (is_signer_unknown(r))
    }

    open spec fn operand_step(
        op: Operand,
        body: Body,
        tcx: Tcx,
        span: u32,
        sa: crate::wpa::SmState<Self>,
        ra: Report,
        r: Self,
        sb: crate::wpa::SmState<Self>,
        rb: Report,
    ) -> bool {
        &&& (sb == sa)
        &&& (rb == ra)
        &&& (is_signer_unknown(r))
    }

    open spec fn place_step(
        place: crate::mir::PlaceView,
        body: Body,
        tcx: Tcx,
        span: Option<u32>,
        sa: crate::wpa::SmState<Self>,
        ra: Report,
        r: Self,
        sb: crate::wpa::SmState<Self>,
        rb: Report,
    ) -> bool {
        &&& (sb == sa)
        &&& (rb == ra)
        &&& (is_signer_unknown(r))
    }

    open spec fn init_step(
        place: crate::mir::PlaceView,
        body: Body,
        tcx: Tcx,
        sa: crate::wpa::SmState<Self>,
        ra: Report,
        r: Self,
        sb: crate::wpa::SmState<Self>,
        rb: Report,
    ) -> bool {
        &&& (sb == sa)
        &&& (rb == ra)
        &&& (is_signer_unknown(r))
    }

    open spec fn terminator_step(
        terminator: Terminator,
        body: Body,
        tcx: Tcx,
        span: u32,
        sa: crate::wpa::SmState<Self>,
        ra: Report,
        r: Self,
        sb: crate::wpa::SmState<Self>,
        rb: Report,
    ) -> bool {
        &&& (sb == sa)
        &&& (rb == ra)
        &&& (is_signer_unknown(r))
    }

    open spec fn spec_compute_func(body: Body, tcx: Tcx, flags: Seq<bool>) -> Option<Self> {
        None
    }

    open spec fn spec_compute_func_flags(body: Body, tcx: Tcx, flags: Seq<bool>) -> Seq<bool> {
        flags
    }

    /// This analysis keeps no state per function.
    fn compute_func(body: &Body, tcx: &Tcx, sm: &mut StateMachine<Self>) -> (r: Option<Self>)
        ensures
            *final(sm) == *old(sm),
    {
        None
    }

    open spec fn spec_report_func(
        body: Body,
        tcx: Tcx,
        state: Self,
        func_states: Map<crate::mir::DefId, Self>,
        stack: Seq<crate::mir::DefId>,
        flags: Seq<bool>,
        before: Report,
        after: Report,
    ) -> bool {
        after == before
    }

    /// This analysis reports nothing once a function has been analysed.
    fn report_func(
        body: &Body,
        tcx: &Tcx,
        state: Self,
        sm: &mut StateMachine<Self>,
        report: &mut Report,
    )
        ensures
            *final(sm) == *old(sm),
            *final(report) == *old(report),
    {
    }

    /// Either check or signer variable carries over; the longer name and the
    /// larger set of checked functions are kept (the second on a tie).
    open spec fn spec_merge(self, other: Self, tcx: Tcx, flags: Seq<bool>) -> Self {
        is_signer_checker {
            has_signer_check: self.has_signer_check || other.has_signer_check,
            has_signer_var: self.has_signer_var || other.has_signer_var,
            signer_var_name: if utf8_len(self.signer_var_name@) > utf8_len(other.signer_var_name@) {
                self.signer_var_name
            } else {
                other.signer_var_name
            },
            checked_funcs: if shared_place_set_contents(self.checked_funcs).len()
                > shared_place_set_contents(other.checked_funcs).len() {
                self.checked_funcs
            } else {
                other.checked_funcs
            },
        }
    }

    open spec fn spec_merge_flags(self, other: Self, flags: Seq<bool>) -> Seq<bool> {
        flags
    }

    fn dup(&self) -> (r: Self) {
        is_signer_checker {
            has_signer_check: self.has_signer_check,
            has_signer_var: self.has_signer_var,
            signer_var_name: self.signer_var_name.clone(),
            checked_funcs: self.checked_funcs.share(),
        }
    }

    /// Operands are looked at, and nothing is known of the result.
    fn compute_rvalue(
        rvalue: &Rvalue,
        body: &Body,
        tcx: &Tcx,
        sm: &mut StateMachine<Self>,
        report: &mut Report,
        span: u32,
    ) -> (r: Self)
        ensures
            *final(sm) == *old(sm),
            *final(report) == *old(report),
            is_signer_unknown(r),
    {
        match rvalue {
            Rvalue::Use(op) => Self::compute_operand(op, body, tcx, sm, report, span),
            Rvalue::Ref(place) => Self::compute_place(place, body, tcx, sm, report, Some(span)),
            Rvalue::Cast(op, _ty) => Self::compute_operand(op, body, tcx, sm, report, span),
            Rvalue::BinaryOp(_op, op1, op2) => {
                let _st1 = Self::compute_operand(op1, body, tcx, sm, report, span);
                let _st2 = Self::compute_operand(op2, body, tcx, sm, report, span);
                Self::default()
            },
            Rvalue::UnaryOp(op) => Self::compute_operand(op, body, tcx, sm, report, span),
            _ => Self::default(),
        }
    }

    fn compute_operand(
        op: &Operand,
        body: &Body,
        tcx: &Tcx,
        sm: &mut StateMachine<Self>,
        report: &mut Report,
        span: u32,
    ) -> (r: Self)
        ensures
            *final(sm) == *old(sm),
            *final(report) == *old(report),
            is_signer_unknown(r),
    {
        match op {
            Operand::Copy(from) | Operand::Move(from) => Self::compute_place(
                from,
                body,
                tcx,
                sm,
                report,
                Some(span),
            ),
            Operand::Constant(_) => Self::default(),
        }
    }

    fn compute_place(
        place: &Place,
        body: &Body,
        tcx: &Tcx,
        sm: &mut StateMachine<Self>,
        report: &mut Report,
        span: Option<u32>,
    ) -> (r: Self)
        ensures
            *final(sm) == *old(sm),
            *final(report) == *old(report),
            is_signer_unknown(r),
    {
        Self::default()
    }

    /// A place starts with nothing known.
    fn init_place(
        place: &Place,
        body: &Body,
        tcx: &Tcx,
        sm: &mut StateMachine<Self>,
        report: &mut Report,
    ) -> (r: Self)
        ensures
            *final(sm) == *old(sm),
            *final(report) == *old(report),
            is_signer_unknown(r),
    {
        Self::default()
    }

    fn merge(&self, other: Self, body: &Body, tcx: &Tcx, sm: &mut StateMachine<Self>) -> (r: Self)
        ensures
            *final(sm) == *old(sm),
    {
        let checked_funcs = if self.checked_funcs.len() > other.checked_funcs.len() {
            self.checked_funcs.share()
        } else {
            other.checked_funcs.share()
        };
        let signer_var_name = if self.signer_var_name.as_str().len()
            > other.signer_var_name.as_str().len() {
            self.signer_var_name.clone()
        } else {
            other.signer_var_name.clone()
        };
        is_signer_checker {
            has_signer_check: self.has_signer_check || other.has_signer_check,
            has_signer_var: self.has_signer_var || other.has_signer_var,
            signer_var_name,
            checked_funcs,
        }
    }

    fn compute_terminator(
        terminator: &Terminator,
        body: &Body,
        tcx: &Tcx,
        sm: &mut StateMachine<Self>,
        report: &mut Report,
        span: u32,
    ) -> (r: Self)
        ensures
            *final(sm) == *old(sm),
            *final(report) == *old(report),
            is_signer_unknown(r),
    {
        Self::default()
    }
}

} // verus!
