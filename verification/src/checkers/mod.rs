//! The analyses, and what they share.

pub mod overflow;
pub mod bump_seed;
pub mod cross_program_invocation;
pub mod staking_validator;
pub mod model;
pub mod instruction_id;
pub mod owner;
pub mod precision;
pub mod is_signer_checker;

use vstd::prelude::*;
use crate::mir::{
    body_of, place_ty, symbol, ty_of, Body, DefId, Operand, Place, PlaceView, ProjElem, Tcx,
    TyKind,
};
use crate::reporter::{
    bug_recorded, callstack_blacklisted, callstack_formatted, callstack_signature, callstack_text, counted,
    dedup_category, report_grows, report_wf, Report, VulnerabilityType,
};
use crate::conf::strings_view;
use crate::strs::str_eq;
use crate::wpa::{FullPlaceRef, FullPlaceView, StateMachine, StateTransitor};

verus! {

/// The first projection of the place is a downcast to the variant `Continue`.
pub open spec fn downcast_continue(tcx: Tcx, p: PlaceView) -> bool {
    p.projection.len() > 0 && match p.projection[0] {
        ProjElem::Downcast { name: Some(s), .. } => symbol(tcx, s) == "Continue"@,
        _ => false,
    }
}

/// Whether the first projection of the place is a downcast to the variant `Continue`.
pub fn has_downcast_continue(tcx: &Tcx, place: &Place) -> (r: bool)
    ensures
        r == downcast_continue(*tcx, place@),
{
    if place.projection.len() > 0 {
        match &place.projection[0] {
            ProjElem::Downcast { name: Some(s), .. } => {
                let name = tcx.symbol_str(*s);
                proof {
                    reveal_strlit("Continue");
                }
                return str_eq(name.as_str(), "Continue");
            },
            _ => {},
        }
    }
    false
}

/// The place without its last projection.
pub open spec fn base_of(p: PlaceView) -> PlaceView {
    PlaceView { local: p.local, projection: p.projection.drop_last() }
}

/// The state of the place, or else of the nearest base of the place that has one.
pub open spec fn nearest_state<T>(states: Map<FullPlaceView, T>, func: DefId, p: PlaceView) -> Option<T>
    decreases p.projection.len(),
{
    let k = FullPlaceView { func, place: p };
    if states.contains_key(k) {
        Some(states[k])
    } else if p.projection.len() == 0 {
        None
    } else {
        nearest_state(states, func, base_of(p))
    }
}

/// The state of the place, or else of the nearest base of the place that has one.
pub fn find_nearest_state<'a, T>(sm: &'a StateMachine<T>, func: DefId, place: &Place) -> (r: Option<&'a T>)
    requires
        sm.wf(),
    ensures
        match r {
            Some(st) => nearest_state(sm.states(), func, place@) == Some(*st),
            None => nearest_state(sm.states(), func, place@).is_none(),
        },
{
    let mut cur = place.copy_place();
    loop
        invariant
            sm.wf(),
            nearest_state(sm.states(), func, cur@) == nearest_state(sm.states(), func, place@),
        decreases cur@.projection.len(),
    {
        let fp = FullPlaceRef::new(func, cur.copy_place());
        match sm.get_state(&fp) {
            Some(st) => {
                return Some(st);
            },
            None => {},
        }
        match cur.last_projection() {
            Some((base, _elem)) => {
                assert(base@ == base_of(cur@));
                cur = base;
            },
            None => {
                return None;
            },
        }
    }
}

/// The type of an operand.
pub open spec fn operand_ty(tcx: Tcx, body: Body, op: Operand) -> Option<u32> {
    match op {
        Operand::Copy(p) => place_ty(tcx, body, p@),
        Operand::Move(p) => place_ty(tcx, body, p@),
        Operand::Constant(c) => Some(c.ty),
    }
}

/// Whether the type is an integer or floating-point type.
pub open spec fn is_numeric(tcx: Tcx, t: Option<u32>) -> bool {
    match t {
        Some(t) => match ty_of(tcx, t) {
            Some(d) => d.kind is Numeric,
            None => false,
        },
        None => false,
    }
}

/// The effect on the report of finding a bug in the current function: the
/// call stack is formatted, and the finding is recorded unless `guarded` and
/// the call stack was seen before or is blacklisted.
pub open spec fn finding_reported(
    a: Report,
    b: Report,
    tcx: Tcx,
    stack: Seq<DefId>,
    category: VulnerabilityType,
    func: Seq<char>,
    code: Seq<char>,
    context: Seq<char>,
    status: Seq<char>,
    guarded: bool,
) -> bool {
    exists|mid: Report|
        #![trigger callstack_formatted(a, mid, tcx, stack)]
        callstack_formatted(a, mid, tcx, stack) && if guarded && (mid.filter_result || mid.blacklist) {
            b == mid
        } else {
            bug_recorded(
                mid,
                b,
                category,
                "Critical"@,
                func,
                code,
                context,
                callstack_text(tcx, stack, stack.len()),
                status,
                Seq::empty(),
                Seq::empty(),
                Seq::empty(),
            )
        }
}

/// A finding is counted once: its category's counter and the total go up by
/// one, unless the total is at its maximum, the finding is guarded and its
/// call stack was seen before or is blacklisted, or its category is counted
/// once per code and the code was seen before.
pub proof fn law_finding_counted(
    a: Report,
    b: Report,
    tcx: Tcx,
    stack: Seq<DefId>,
    category: VulnerabilityType,
    func: Seq<char>,
    code: Seq<char>,
    context: Seq<char>,
    status: Seq<char>,
    guarded: bool,
)
    requires
        finding_reported(a, b, tcx, stack, category, func, code, context, status, guarded),
        a.total < usize::MAX,
        guarded ==> !callstack_blacklisted(tcx, stack) && !strings_view(a.filtered@).contains(
            callstack_signature(tcx, stack, stack.len()),
        ),
        dedup_category(category) ==> !strings_view(a.vulns_code@).contains(code),
    ensures
        counted(a, b, category),
{
    let mid = choose|mid: Report|
        #![trigger callstack_formatted(a, mid, tcx, stack)]
        callstack_formatted(a, mid, tcx, stack) && if guarded && (mid.filter_result || mid.blacklist) {
            b == mid
        } else {
            bug_recorded(
                mid,
                b,
                category,
                "Critical"@,
                func,
                code,
                context,
                callstack_text(tcx, stack, stack.len()),
                status,
                Seq::empty(),
                Seq::empty(),
                Seq::empty(),
            )
        };
    assert(strings_view(mid.vulns_code@) == strings_view(a.vulns_code@));
}

/// Reports a finding in the function being analysed; see `finding_reported`.
pub fn report_finding(
    report: &mut Report,
    tcx: &Tcx,
    stack: &[DefId],
    category: VulnerabilityType,
    func: String,
    code: String,
    context: String,
    status: String,
    guarded: bool,
)
    requires
        report_wf(*old(report)),
    ensures
        report_wf(*final(report)),
        report_grows(*old(report), *final(report)),
        finding_reported(
            *old(report),
            *final(report),
            *tcx,
            stack@,
            category,
            func@,
            code@,
            context@,
            status@,
            guarded,
        ),
{
    let call_stack = report.call_stack_formatter(tcx, stack);
    let ghost mid = *report;
    if guarded && (report.get_filtered() || report.get_blacklist()) {
        return;
    }
    report.new_bug(
        category,
        String::from_str("Critical"),
        func,
        code,
        context,
        call_stack,
        status,
        None,
        None,
        None,
    );
    proof {
        reveal_strlit("Critical");
    }
}

} // verus!
