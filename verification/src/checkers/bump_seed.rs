//! Bump seed canonicalization: a bump seed that comes from outside must not
//! reach `create_program_address`.

use vstd::prelude::*;
use crate::checkers::{
    downcast_continue, find_nearest_state, finding_reported, has_downcast_continue, nearest_state,
    report_finding,
};
use crate::mir::{
    def_path, is_arg_local, place_eq, symbol, ty_of, Body, Operand, Place, PlaceView, Rvalue, Tcx,
    Terminator, TerminatorKind, TyKind,
};
use crate::reporter::{report_grows, report_wf, Report, VulnerabilityType};
use crate::source_info::{
    get_source_file, get_source_lines, or_empty, spec_source_file, spec_source_lines,
    unwrap_or_empty,
};
use crate::strs::str_eq;
use crate::wpa::{FullPlaceView, StateMachine, StateTransitor};

verus! {

/// The function that derives a program address from seeds.
pub open spec fn spec_cpa() -> Seq<char> {
    "anchor_lang::prelude::Pubkey::create_program_address"@
}

/// Whether a value comes from outside, and whether it is a bump seed.
#[derive(Debug, Clone, Copy, PartialEq, Eq)]
pub struct BumpSeed {
    pub external: bool,
    pub is_bump: bool,
}

impl BumpSeed {
    pub fn default() -> (r: Self)
        ensures
            !r.external,
            !r.is_bump,
    {
        BumpSeed { external: false, is_bump: false }
    }
}

/// The place is the user variable named `bump`.
pub open spec fn bump_var(tcx: Tcx, body: Body, p: PlaceView) -> bool {
    exists|i: int|
        0 <= i < body.var_debug_info@.len() && match #[trigger] body.var_debug_info@[i].place {
            Some(vp) => vp@ == p && symbol(tcx, body.var_debug_info@[i].name) == "bump"@,
            None => false,
        }
}

/// Whether the place is the user variable named `bump`.
pub fn is_bump_var(place: &Place, body: &Body, tcx: &Tcx) -> (r: bool)
    ensures
        r == bump_var(*tcx, *body, place@),
{
    let mut i: usize = 0;
    proof {
        reveal_strlit("bump");
    }
    while i < body.var_debug_info.len()
        invariant
            i <= body.var_debug_info@.len(),
            forall|k: int|
                0 <= k < i ==> !match #[trigger] body.var_debug_info@[k].place {
                    Some(vp) => vp@ == place@ && symbol(*tcx, body.var_debug_info@[k].name) == "bump"@,
                    None => false,
                },
        decreases body.var_debug_info@.len() - i,
    {
        let info = &body.var_debug_info[i];
        match &info.place {
            Some(vp) => {
                if place_eq(vp, place) {
                    let name = tcx.symbol_str(info.name);
                    if str_eq(name.as_str(), "bump") {
                        return true;
                    }
                }
            },
            None => {},
        }
        i = i + 1;
    }
    false
}

/// The state of a place.
pub open spec fn place_bump(states: Map<FullPlaceView, BumpSeed>, tcx: Tcx, body: Body, p: PlaceView) -> BumpSeed {
    match nearest_state(states, body.def_id, p) {
        Some(st) => BumpSeed {
            external: st.external || downcast_continue(tcx, p),
            is_bump: bump_var(tcx, body, p) || st.is_bump,
        },
        None => BumpSeed {
            external: is_arg_local(body, p.local) || downcast_continue(tcx, p),
            is_bump: bump_var(tcx, body, p),
        },
    }
}

/// The state of an operand.
pub open spec fn operand_bump(states: Map<FullPlaceView, BumpSeed>, tcx: Tcx, body: Body, op: Operand) -> BumpSeed {
    match op {
        Operand::Copy(p) => place_bump(states, tcx, body, p@),
        Operand::Move(p) => place_bump(states, tcx, body, p@),
        Operand::Constant(_) => BumpSeed { external: false, is_bump: false },
    }
}

/// The state of an aggregate: an external bump seed among the elements
/// makes the whole an external bump seed; otherwise it is external when an
/// element is.
pub open spec fn aggregate_bump(states: Map<FullPlaceView, BumpSeed>, tcx: Tcx, body: Body, es: Seq<Operand>) -> BumpSeed {
    if exists|i: int| 0 <= i < es.len() && (#[trigger] operand_bump(states, tcx, body, es[i])).external
        && operand_bump(states, tcx, body, es[i]).is_bump {
        BumpSeed { external: true, is_bump: true }
    } else {
        BumpSeed {
            external: exists|i: int| 0 <= i < es.len() && (#[trigger] operand_bump(states, tcx, body, es[i])).external,
            is_bump: false,
        }
    }
}

/// The state of an rvalue.
pub open spec fn rvalue_bump(states: Map<FullPlaceView, BumpSeed>, tcx: Tcx, body: Body, rv: Rvalue) -> BumpSeed {
    match rv {
        Rvalue::Use(op) => operand_bump(states, tcx, body, op),
        Rvalue::Ref(p) => place_bump(states, tcx, body, p@),
        Rvalue::Cast(op, _) => operand_bump(states, tcx, body, op),
        Rvalue::Aggregate(es) => aggregate_bump(states, tcx, body, es@),
        _ => BumpSeed { external: false, is_bump: false },
    }
}

/// The callee of a call terminator whose function is a constant function item.
pub open spec fn const_callee(tcx: Tcx, t: Terminator) -> Option<crate::mir::DefId> {
    match t.kind {
        TerminatorKind::Call { func: Operand::Constant(c), .. } => match ty_of(tcx, c.ty) {
            Some(d) => match d.kind {
                TyKind::FnDef(f) => Some(f),
                _ => None,
            },
            None => None,
        },
        _ => None,
    }
}

/// The arguments of a call terminator.
pub open spec fn call_args(t: Terminator) -> Seq<Operand> {
    match t.kind {
        TerminatorKind::Call { args, .. } => args@,
        _ => Seq::empty(),
    }
}

/// Whether a call terminator has a destination.
pub open spec fn call_has_dest(t: Terminator) -> bool {
    match t.kind {
        TerminatorKind::Call { destination, .. } => destination.is_some(),
        _ => false,
    }
}

/// The call derives a program address from an external bump seed.
pub open spec fn bump_misuse(states: Map<FullPlaceView, BumpSeed>, tcx: Tcx, body: Body, t: Terminator) -> bool {
    match const_callee(tcx, t) {
        Some(f) => def_path(tcx, f) == spec_cpa() && call_args(t).len() == 2 && operand_bump(
            states,
            tcx,
            body,
            call_args(t)[0],
        ).is_bump && operand_bump(states, tcx, body, call_args(t)[0]).external,
        None => false,
    }
}

/// The callee of a constant call.
pub fn const_callee_exec(tcx: &Tcx, t: &Terminator) -> (r: Option<crate::mir::DefId>)
    ensures
        r == const_callee(*tcx, *t),
{
    match &t.kind {
        TerminatorKind::Call { func: Operand::Constant(c), .. } => match tcx.ty(c.ty) {
            Some(d) => match &d.kind {
                TyKind::FnDef(f) => Some(*f),
                _ => None,
            },
            None => None,
        },
        _ => None,
    }
}

impl StateTransitor for BumpSeed {
    open spec fn rvalue_step(
        rvalue: Rvalue,
        body: Body,
        tcx: Tcx,
        span: u32,
        sa: crate::wpa::SmState<Self>,
        ra: Report,
        r: Self,
        sb: crate::wpa::SmState<Self>,
        rb: Report,
    ) -> bool {
        &&& (sb == sa)
        &&& (rb == ra)
        &&& (r == rvalue_bump(sa.states, tcx, body, rvalue))
    }

    open spec fn operand_step(
        op: Operand,
        body: Body,
        tcx: Tcx,
        span: u32,
        sa: crate::wpa::SmState<Self>,
        ra: Report,
        r: Self,
        sb: crate::wpa::SmState<Self>,
        rb: Report,
    ) -> bool {
        &&& (sb == sa)
        &&& (rb == ra)
        &&& (r == operand_bump(sa.states, tcx, body, op))
    }

    open spec fn place_step(
        place: crate::mir::PlaceView,
        body: Body,
        tcx: Tcx,
        span: Option<u32>,
        sa: crate::wpa::SmState<Self>,
        ra: Report,
        r: Self,
        sb: crate::wpa::SmState<Self>,
        rb: Report,
    ) -> bool {
        &&& (sb == sa)
        &&& (rb == ra)
        &&& (r == place_bump(sa.states, tcx, body, place))
    }

    open spec fn init_step(
        place: crate::mir::PlaceView,
        body: Body,
        tcx: Tcx,
        sa: crate::wpa::SmState<Self>,
        ra: Report,
        r: Self,
        sb: crate::wpa::SmState<Self>,
        rb: Report,
    ) -> bool {
        &&& (sb == sa)
        &&& (rb == ra)
        &&& (r == place_bump(sa.states, tcx, body, place))
    }

    open spec fn terminator_step(
        terminator: Terminator,
        body: Body,
        tcx: Tcx,
        span: u32,
        sa: crate::wpa::SmState<Self>,
        ra: Report,
        r: Self,
        sb: crate::wpa::SmState<Self>,
        rb: Report,
    ) -> bool {
        &&& (sb == sa)
        &&& (r == (match const_callee(tcx, terminator) {
                    Some(f) => if def_path(tcx, f) != spec_cpa() && def_path(tcx, f) == "BorshDeserialize::deserialize"@
                        && call_has_dest(terminator) {
                        BumpSeed { external: true, is_bump: false }
                    } else {
                        BumpSeed { external: false, is_bump: false }
                    },
                    None => BumpSeed { external: false, is_bump: false },
                }))
        &&& (if bump_misuse(sa.states, tcx, body, terminator) {
                    finding_reported(
                        ra,
                        rb,
                        tcx,
                        sa.stack,
                        VulnerabilityType::BumpSeed,
                        def_path(tcx, body.def_id),
                        or_empty(spec_source_file(tcx, span)),
                        or_empty(spec_source_lines(tcx, body.span)),
                        "UnResolved"@,
                        false,
                    )
                } else {
                    rb == ra
                })
    }

    open spec fn spec_compute_func(body: Body, tcx: Tcx, flags: Seq<bool>) -> Option<Self> {
        None
    }

    open spec fn spec_compute_func_flags(body: Body, tcx: Tcx, flags: Seq<bool>) -> Seq<bool> {
        flags
    }

    /// This analysis keeps no state per function.
    fn compute_func(body: &Body, tcx: &Tcx, sm: &mut StateMachine<Self>) -> (r: Option<Self>)
        ensures
            *final(sm) == *old(sm),
    {
        None
    }

    open spec fn spec_report_func(
        body: Body,
        tcx: Tcx,
        state: Self,
        func_states: Map<crate::mir::DefId, Self>,
        stack: Seq<crate::mir::DefId>,
        flags: Seq<bool>,
        before: Report,
        after: Report,
    ) -> bool {
        after == before
    }

    /// This analysis reports nothing once a function has been analysed.
    fn report_func(
        body: &Body,
        tcx: &Tcx,
        state: Self,
        sm: &mut StateMachine<Self>,
        report: &mut Report,
    )
        ensures
            *final(sm) == *old(sm),
            *final(report) == *old(report),
    {
    }

    open spec fn spec_merge(self, other: Self, tcx: Tcx, flags: Seq<bool>) -> Self {
        other
    }

    open spec fn spec_merge_flags(self, other: Self, flags: Seq<bool>) -> Seq<bool> {
        flags
    }

    fn dup(&self) -> (r: Self) {
        *self
    }

    fn compute_rvalue(
        rvalue: &Rvalue,
        body: &Body,
        tcx: &Tcx,
        sm: &mut StateMachine<Self>,
        report: &mut Report,
        span: u32,
    ) -> (r: Self)
        ensures
            *final(sm) == *old(sm),
            *final(report) == *old(report),
            r == rvalue_bump(old(sm).states(), *tcx, *body, *rvalue),
    {
        match rvalue {
            Rvalue::Use(op) => Self::compute_operand(op, body, tcx, sm, report, span),
            Rvalue::Ref(place) => Self::compute_place(place, body, tcx, sm, report, Some(span)),
            Rvalue::Cast(op, _ty) => Self::compute_operand(op, body, tcx, sm, report, span),
            Rvalue::Aggregate(elements) => {
                let mut external = false;
                let mut i: usize = 0;
                assert(rvalue_bump(sm.states(), *tcx, *body, *rvalue) == aggregate_bump(sm.states(), *tcx, *body, elements@));
                while i < elements.len()
                    invariant
                        rvalue_bump(sm.states(), *tcx, *body, *rvalue) == aggregate_bump(sm.states(), *tcx, *body, elements@),
                        sm.wf(),
                        sm.stack().len() > 0,
                        report_grows(*old(report), *report),
                        *sm == *old(sm),
                        *report == *old(report),
                        i <= elements@.len(),
                        forall|k: int| 0 <= k < i ==> !((#[trigger] operand_bump(sm.states(), *tcx, *body, elements@[k])).external
                            && operand_bump(sm.states(), *tcx, *body, elements@[k]).is_bump),
                        external == exists|k: int| 0 <= k < i && (#[trigger] operand_bump(sm.states(), *tcx, *body, elements@[k])).external,
                    decreases elements@.len() - i,
                {
                    let st = Self::compute_operand(&elements[i], body, tcx, sm, report, span);
                    if st.external && st.is_bump {
                        return st;
                    }
                    external = external || st.external;
                    i = i + 1;
                }
                BumpSeed { external, is_bump: false }
            },
            _ => BumpSeed::default(),
        }
    }

    fn compute_operand(
        op: &Operand,
        body: &Body,
        tcx: &Tcx,
        sm: &mut StateMachine<Self>,
        report: &mut Report,
        span: u32,
    ) -> (r: Self)
        ensures
            *final(sm) == *old(sm),
            *final(report) == *old(report),
            r == operand_bump(old(sm).states(), *tcx, *body, *op),
    {
        match op {
            Operand::Copy(from) | Operand::Move(from) => Self::compute_place(
                from,
                body,
                tcx,
                sm,
                report,
                Some(span),
            ),
            Operand::Constant(_) => BumpSeed::default(),
        }
    }

    fn compute_place(
        place: &Place,
        body: &Body,
        tcx: &Tcx,
        sm: &mut StateMachine<Self>,
        report: &mut Report,
        span: Option<u32>,
    ) -> (r: Self)
        ensures
            *final(sm) == *old(sm),
            *final(report) == *old(report),
            r == place_bump(old(sm).states(), *tcx, *body, place@),
    {
        let external_from_downcast = has_downcast_continue(tcx, place);
        let is_bump = is_bump_var(place, body, tcx);
        match find_nearest_state(sm, body.def_id, place) {
            Some(st) => BumpSeed {
                external: st.external || external_from_downcast,
                is_bump: is_bump || st.is_bump,
            },
            None => {
                let local_index = place.local as usize;
                let external = if 1usize <= local_index && local_index <= body.arg_count {
                    true
                } else {
                    external_from_downcast
                };
                BumpSeed { external, is_bump }
            },
        }
    }

    fn init_place(
        place: &Place,
        body: &Body,
        tcx: &Tcx,
        sm: &mut StateMachine<Self>,
        report: &mut Report,
    ) -> (r: Self)
        ensures
            *final(sm) == *old(sm),
            *final(report) == *old(report),
            r == place_bump(old(sm).states(), *tcx, *body, place@),
    {
        Self::compute_place(place, body, tcx, sm, report, None)
    }

    fn merge(&self, other: Self, body: &Body, tcx: &Tcx, sm: &mut StateMachine<Self>) -> (r: Self)
        ensures
            *final(sm) == *old(sm),
    {
        BumpSeed { external: other.external, is_bump: other.is_bump }
    }

    /// A call of `create_program_address` whose seeds hold an external bump
    /// seed is reported; the result of a deserialization comes from outside.
    fn compute_terminator(
        terminator: &Terminator,
        body: &Body,
        tcx: &Tcx,
        sm: &mut StateMachine<Self>,
        report: &mut Report,
        span: u32,
    ) -> (r: Self)
        ensures
            *final(sm) == *old(sm),
            r == (match const_callee(*tcx, *terminator) {
                Some(f) => if def_path(*tcx, f) != spec_cpa() && def_path(*tcx, f) == "BorshDeserialize::deserialize"@
                    && call_has_dest(*terminator) {
                    BumpSeed { external: true, is_bump: false }
                } else {
                    BumpSeed { external: false, is_bump: false }
                },
                None => BumpSeed { external: false, is_bump: false },
            }),
            if bump_misuse(old(sm).states(), *tcx, *body, *terminator) {
                finding_reported(
                    *old(report),
                    *final(report),
                    *tcx,
                    old(sm).stack(),
                    VulnerabilityType::BumpSeed,
                    def_path(*tcx, body.def_id),
                    or_empty(spec_source_file(*tcx, span)),
                    or_empty(spec_source_lines(*tcx, body.span)),
                    "UnResolved"@,
                    false,
                )
            } else {
                *final(report) == *old(report)
            },
    {
        proof {
            reveal_strlit("anchor_lang::prelude::Pubkey::create_program_address");
            reveal_strlit("BorshDeserialize::deserialize");
            reveal_strlit("UnResolved");
        }
        match const_callee_exec(tcx, terminator) {
            Some(f) => {
                let func_name = tcx.def_path_str(f);
                if str_eq(func_name.as_str(), "anchor_lang::prelude::Pubkey::create_program_address") {
                    match &terminator.kind {
                        TerminatorKind::Call { args, .. } => {
                            if args.len() == 2 {
                                let st = Self::compute_operand(&args[0], body, tcx, sm, report, span);
                                if st.is_bump && st.external {
                                    let code = unwrap_or_empty(get_source_file(tcx, span));
                                    let context = unwrap_or_empty(get_source_lines(tcx, body.span));
                                    report_finding(
                                        report,
                                        tcx,
                                        sm.get_call_stack(),
                                        VulnerabilityType::BumpSeed,
                                        tcx.def_path_str(body.def_id),
                                        code,
                                        context,
                                        String::from_str("UnResolved"),
                                        false,
                                    );
                                }
                            }
                        },
                        _ => {},
                    }
                } else if str_eq(func_name.as_str(), "BorshDeserialize::deserialize") {
                    match &terminator.kind {
                        TerminatorKind::Call { destination, .. } => {
                            if destination.is_some() {
                                return BumpSeed { external: true, is_bump: false };
                            }
                        },
                        _ => {},
                    }
                }
            },
            None => {},
        }
        BumpSeed::default()
    }
}

/// Taking a reference to a place gives a value with the state of the
/// place: the same state as reading the place, or copying it. So a
/// reference to a value that is an external bump seed (such as an array
/// holding one) is an external bump seed too. Nothing changes on the way.
pub proof fn law_reference_keeps_state(
    p: Place,
    body: Body,
    tcx: Tcx,
    span: u32,
    pspan: Option<u32>,
    sa: crate::wpa::SmState<BumpSeed>,
    ra: Report,
    r1: BumpSeed,
    s1: crate::wpa::SmState<BumpSeed>,
    rb1: Report,
    r2: BumpSeed,
    s2: crate::wpa::SmState<BumpSeed>,
    rb2: Report,
    r3: BumpSeed,
    s3: crate::wpa::SmState<BumpSeed>,
    rb3: Report,
)
    requires
        BumpSeed::rvalue_step(Rvalue::Ref(p), body, tcx, span, sa, ra, r1, s1, rb1),
        BumpSeed::place_step(p@, body, tcx, pspan, sa, ra, r2, s2, rb2),
        BumpSeed::rvalue_step(Rvalue::Use(Operand::Copy(p)), body, tcx, span, sa, ra, r3, s3, rb3),
    ensures
        r1 == r2,
        r1 == r3,
        s1 == sa && rb1 == ra,
        ({
            let k = FullPlaceView { func: body.def_id, place: p@ };
            sa.states.contains_key(k) && sa.states[k].external && sa.states[k].is_bump ==> r1.external && r1.is_bump
        }),
{
}

/// A call of `create_program_address` with two arguments whose seeds (the
/// first) are an external bump seed records one bump-seed finding (unless
/// the report is full); with seeds that are not, nothing is reported. The
/// call's own value is no bump seed.
pub proof fn law_external_bump_seed_reported(
    t: Terminator,
    body: Body,
    tcx: Tcx,
    span: u32,
    sa: crate::wpa::SmState<BumpSeed>,
    ra: Report,
    r: BumpSeed,
    sb: crate::wpa::SmState<BumpSeed>,
    rb: Report,
)
    requires
        const_callee(tcx, t) matches Some(f) && def_path(tcx, f)
            == "anchor_lang::prelude::Pubkey::create_program_address"@,
        call_args(t).len() == 2,
        BumpSeed::terminator_step(t, body, tcx, span, sa, ra, r, sb, rb),
    ensures
        sb == sa,
        !r.is_bump && !r.external,
        ({
            let seeds = operand_bump(sa.states, tcx, body, call_args(t)[0]);
            &&& !(seeds.external && seeds.is_bump) ==> rb == ra
            &&& seeds.external && seeds.is_bump && ra.total < usize::MAX ==> rb.total == ra.total + 1
                && rb.oth_cnt == ra.oth_cnt + 1
        }),
{
    let seeds = operand_bump(sa.states, tcx, body, call_args(t)[0]);
    if seeds.external && seeds.is_bump && ra.total < usize::MAX {
        crate::checkers::law_finding_counted(
            ra,
            rb,
            tcx,
            sa.stack,
            VulnerabilityType::BumpSeed,
            def_path(tcx, body.def_id),
            or_empty(spec_source_file(tcx, span)),
            or_empty(spec_source_lines(tcx, body.span)),
            "UnResolved"@,
            false,
        );
    }
}

/// An aggregate (an array of seeds) with an element that is an external
/// bump seed is an external bump seed; otherwise it is no bump seed, and it
/// is external exactly when an element is.
pub proof fn law_aggregate_of_bump(
    es: Vec<Operand>,
    body: Body,
    tcx: Tcx,
    span: u32,
    sa: crate::wpa::SmState<BumpSeed>,
    ra: Report,
    r: BumpSeed,
    sb: crate::wpa::SmState<BumpSeed>,
    rb: Report,
    i: int,
)
    requires
        BumpSeed::rvalue_step(Rvalue::Aggregate(es), body, tcx, span, sa, ra, r, sb, rb),
        0 <= i < es@.len(),
    ensures
        operand_bump(sa.states, tcx, body, es@[i]).external && operand_bump(sa.states, tcx, body, es@[i]).is_bump
            ==> r.external && r.is_bump,
        operand_bump(sa.states, tcx, body, es@[i]).external ==> r.external,
        !r.external ==> !r.is_bump,
{
}

} // verus!
