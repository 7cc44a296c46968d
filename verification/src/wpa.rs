//! Whole program analysis.

use vstd::prelude::*;
use crate::mir::{
    body_of, def_path, place_eq, ty_of, Body, DefId, Operand, Place, PlaceView, ProjElem, Rvalue, Statement,
    StatementKind, Terminator, TerminatorKind, Tcx, TyKind,
};
use crate::conf::strings_view;
use crate::strs::{seq_contains, str_contains, str_eq};
use crate::reporter::{report_grows, report_wf, Report};
use crate::walk::{
    args_walk, call_walk, check_walk, field_place, fields_walk, func_entered, ops_walk, operand_bind, place_bind,
    ret_walk, sm_update, start_walk, stmt_walk, stmts_walk, blocks_walk, block_walk, term_walk, walk_func,
    with_stack, dest_update, WalkState, lemma_ops_walk_step, lemma_fields_walk_step,
    lemma_stmts_walk_step, lemma_blocks_walk_step, filter_cleared,
};
use crate::collections::{
    def_id_set_contents, full_place_index_contents, id_index_contents, DefIdSet, FullPlaceIndex,
    IdIndex,
};

verus! {

/// A place qualified by the function it belongs to.
#[derive(Clone, Debug, PartialEq, Eq, Hash)]
pub struct FullPlaceRef {
    pub func: DefId,
    pub place: Place,
}

pub struct FullPlaceView {
    pub func: DefId,
    pub place: PlaceView,
}

impl View for FullPlaceRef {
    type V = FullPlaceView;

    open spec fn view(&self) -> FullPlaceView {
        FullPlaceView { func: self.func, place: self.place@ }
    }
}

} // verus!

verus! {

/// The value of shared flag `id` (false for an unknown flag).
pub open spec fn flag_of(flags: Seq<bool>, id: usize) -> bool {
    if (id as int) < flags.len() { flags[id as int] } else { false }
}

/// The flags after setting flag `id` (unchanged for an unknown flag).
pub open spec fn flags_set(flags: Seq<bool>, id: usize, v: bool) -> Seq<bool> {
    if (id as int) < flags.len() { flags.update(id as int, v) } else { flags }
}

/// What the state machine holds, as values: the states of places, the
/// states of functions, the stack of functions and the shared flags.
pub struct SmState<T> {
    pub states: Map<FullPlaceView, T>,
    pub func_states: Map<DefId, T>,
    pub stack: Seq<DefId>,
    pub flags: Seq<bool>,
}

/// The state machine. It keeps the states of the places seen so far, a
/// state per function, the stack of functions being analysed, and the
/// shared flags that several states can point to.
pub struct StateMachine<T> {
    index: FullPlaceIndex,
    vals: Vec<T>,
    func_index: IdIndex,
    func_vals: Vec<T>,
    call_stack: Vec<DefId>,
    flags: Vec<bool>,
}

impl<T> StateMachine<T> {
    /// The state of each place seen so far.
    pub closed spec fn states(&self) -> Map<FullPlaceView, T> {
        full_place_index_contents(self.index).map_values(|i: usize| self.vals@[i as int])
    }

    /// The state of each function that has one.
    pub closed spec fn func_states(&self) -> Map<DefId, T> {
        id_index_contents(self.func_index).map_values(|i: usize| self.func_vals@[i as int])
    }

    /// What the state machine holds.
    pub open spec fn sm_state(&self) -> SmState<T> {
        SmState { states: self.states(), func_states: self.func_states(), stack: self.stack(), flags: self.flags() }
    }

    /// The functions being analysed, outermost first.
    pub closed spec fn stack(&self) -> Seq<DefId> {
        self.call_stack@
    }

    /// The shared flags.
    pub closed spec fn flags(&self) -> Seq<bool> {
        self.flags@
    }

    /// Every stored index points to a stored state, and no function is on
    /// the stack twice.
    pub closed spec fn wf(&self) -> bool {
        &&& forall|k: FullPlaceView| #[trigger]
            full_place_index_contents(self.index).contains_key(k)
                ==> full_place_index_contents(self.index)[k] < self.vals@.len()
        &&& forall|k: DefId| #[trigger]
            id_index_contents(self.func_index).contains_key(k) ==> id_index_contents(
                self.func_index,
            )[k] < self.func_vals@.len()
        &&& self.call_stack@.no_duplicates()
    }

    /// An empty state machine.
    pub fn new() -> (r: Self)
        ensures
            r.wf(),
            r.states() == Map::<FullPlaceView, T>::empty(),
            r.func_states() == Map::<DefId, T>::empty(),
            r.stack() == Seq::<DefId>::empty(),
            r.flags() == Seq::<bool>::empty(),
    {
        let r = StateMachine {
            index: FullPlaceIndex::new(),
            vals: Vec::new(),
            func_index: IdIndex::new(),
            func_vals: Vec::new(),
            call_stack: Vec::new(),
            flags: Vec::new(),
        };
        assert(r.states() =~= Map::<FullPlaceView, T>::empty());
        assert(r.func_states() =~= Map::<DefId, T>::empty());
        r
    }

    /// The functions being analysed, outermost first.
    pub fn get_call_stack(&self) -> (r: &[DefId])
        ensures
            r@ == self.stack(),
    {
        self.call_stack.as_slice()
    }

    /// Enters a function: pushes it on the stack unless it is already there
    /// (a recursive call), in which case nothing changes and false is returned.
    pub fn enter_func(&mut self, new_func: DefId) -> (r: bool)
        requires
            old(self).wf(),
        ensures
            final(self).wf(),
            r == !old(self).stack().contains(new_func),
            final(self).stack() == (if r { old(self).stack().push(new_func) } else { old(self).stack() }),
            final(self).states() == old(self).states(),
            final(self).func_states() == old(self).func_states(),
            final(self).flags() == old(self).flags(),
    {
        let mut i: usize = 0;
        while i < self.call_stack.len()
            invariant
                self.wf(),
                i <= self.call_stack@.len(),
                forall|k: int| 0 <= k < i ==> self.call_stack@[k] != new_func,
            decreases self.call_stack@.len() - i,
        {
            if self.call_stack[i] == new_func {
                assert(self.call_stack@[i as int] == new_func);
                return false;
            }
            i = i + 1;
        }
        self.call_stack.push(new_func);
        proof {
            assert forall|a: int, b: int|
                0 <= a < b < self.call_stack@.len() implies self.call_stack@[a]
                != self.call_stack@[b] by {
                if b == self.call_stack@.len() - 1 {
                    assert(old(self).call_stack@[a] != new_func);
                } else {
                    assert(old(self).call_stack@.no_duplicates());
                }
            }
        }
        true
    }

    /// Leaves the current function.
    pub fn exit_cur_func(&mut self)
        requires
            old(self).wf(),
            old(self).stack().len() > 0,
        ensures
            final(self).wf(),
            final(self).stack() == old(self).stack().drop_last(),
            final(self).states() == old(self).states(),
            final(self).func_states() == old(self).func_states(),
            final(self).flags() == old(self).flags(),
    {
        self.call_stack.pop();
        proof {
            assert forall|a: int, b: int|
                0 <= a < b < self.call_stack@.len() implies self.call_stack@[a]
                != self.call_stack@[b] by {
                assert(old(self).call_stack@[a] == self.call_stack@[a]);
                assert(old(self).call_stack@[b] == self.call_stack@[b]);
            }
        }
    }

    /// The function being analysed.
    pub fn get_cur_func(&self) -> (r: DefId)
        requires
            self.stack().len() > 0,
        ensures
            r == self.stack().last(),
    {
        self.call_stack[self.call_stack.len() - 1]
    }

    /// The state of a place, if it has one.
    pub fn get_state(&self, place: &FullPlaceRef) -> (r: Option<&T>)
        requires
            self.wf(),
        ensures
            r == (if self.states().contains_key(place@) {
                Some(&self.states()[place@])
            } else {
                None::<&T>
            }),
    {
        match self.index.get(place) {
            Some(i) => Some(&self.vals[i]),
            None => None,
        }
    }

    /// The state of a function, if it has one.
    pub fn get_func_state(&self, def_id: DefId) -> (r: Option<&T>)
        requires
            self.wf(),
        ensures
            r == (if self.func_states().contains_key(def_id) {
                Some(&self.func_states()[def_id])
            } else {
                None::<&T>
            }),
    {
        match self.func_index.get(def_id) {
            Some(i) => Some(&self.func_vals[i]),
            None => None,
        }
    }

    /// The state of the function being analysed, if it has one.
    pub fn get_cur_func_state(&self) -> (r: Option<&T>)
        requires
            self.wf(),
            self.stack().len() > 0,
        ensures
            r == (if self.func_states().contains_key(self.stack().last()) {
                Some(&self.func_states()[self.stack().last()])
            } else {
                None::<&T>
            }),
    {
        self.get_func_state(self.get_cur_func())
    }

    /// Sets the state of a function.
    pub fn set_func_state(&mut self, def_id: DefId, t: T)
        requires
            old(self).wf(),
        ensures
            final(self).wf(),
            final(self).func_states() == old(self).func_states().insert(def_id, t),
            final(self).states() == old(self).states(),
            final(self).stack() == old(self).stack(),
            final(self).flags() == old(self).flags(),
    {
        let n = self.func_vals.len();
        self.func_vals.push(t);
        self.func_index.insert(def_id, n);
        proof {
            assert(self.func_states() =~= old(self).func_states().insert(def_id, t)) by {
                assert forall|k: DefId| #[trigger]
                    id_index_contents(old(self).func_index).contains_key(k)
                        implies self.func_vals@[id_index_contents(old(self).func_index)[k] as int]
                    == old(self).func_vals@[id_index_contents(old(self).func_index)[k] as int] by {}
            }
        }
    }

    /// Stores the state of a place, replacing any earlier one.
    pub fn store(&mut self, full_place: FullPlaceRef, t: T)
        requires
            old(self).wf(),
        ensures
            final(self).wf(),
            final(self).states() == old(self).states().insert(full_place@, t),
            final(self).func_states() == old(self).func_states(),
            final(self).stack() == old(self).stack(),
            final(self).flags() == old(self).flags(),
    {
        let n = self.vals.len();
        self.vals.push(t);
        let ghost k0 = full_place@;
        self.index.insert(full_place, n);
        proof {
            assert(self.states() =~= old(self).states().insert(k0, t)) by {
                assert forall|k: FullPlaceView| #[trigger]
                    full_place_index_contents(old(self).index).contains_key(k)
                        implies self.vals@[full_place_index_contents(old(self).index)[k] as int]
                    == old(self).vals@[full_place_index_contents(old(self).index)[k] as int] by {}
            }
        }
    }

    /// A new shared flag with the given value; returns its id.
    pub fn new_flag(&mut self, v: bool) -> (r: usize)
        requires
            old(self).wf(),
        ensures
            final(self).wf(),
            r == old(self).flags().len(),
            final(self).flags() == old(self).flags().push(v),
            final(self).states() == old(self).states(),
            final(self).func_states() == old(self).func_states(),
            final(self).stack() == old(self).stack(),
    {
        let n = self.flags.len();
        self.flags.push(v);
        n
    }

    /// The value of a shared flag (false for an unknown flag).
    pub fn flag(&self, id: usize) -> (r: bool)
        ensures
            r == flag_of(self.flags(), id),
    {
        if id < self.flags.len() {
            self.flags[id]
        } else {
            false
        }
    }

    /// Sets a shared flag (nothing happens for an unknown flag).
    pub fn set_flag(&mut self, id: usize, v: bool)
        requires
            old(self).wf(),
        ensures
            final(self).wf(),
            final(self).flags() == flags_set(old(self).flags(), id, v),
            final(self).states() == old(self).states(),
            final(self).func_states() == old(self).func_states(),
            final(self).stack() == old(self).stack(),
    {
        if id < self.flags.len() {
            self.flags.set(id, v);
        }
    }
}

} // verus!

verus! {

/// Every place that has a state in `a` has one in `b`.
pub open spec fn states_kept<T>(a: Map<FullPlaceView, T>, b: Map<FullPlaceView, T>) -> bool {
    forall|k: FullPlaceView|
        #![trigger a.contains_key(k)]
        #![trigger b.contains_key(k)]
        a.contains_key(k) ==> b.contains_key(k)
}

/// Only the places of function `cur` have their states changed, added or
/// removed from `a` to `b`.
pub open spec fn changes_only<T>(a: Map<FullPlaceView, T>, b: Map<FullPlaceView, T>, cur: DefId) -> bool {
    forall|k: FullPlaceView|
        #![trigger a.contains_key(k)]
        #![trigger b.contains_key(k)]
        k.func != cur ==> a.contains_key(k) == b.contains_key(k) && (a.contains_key(k) ==> b[k] == a[k])
}

/// How a kind of state is computed from the program. Each analysis is a
/// type of state that implements this trait.
pub trait StateTransitor: Sized {
    /// The state that `merge` computes.
    spec fn spec_merge(self, other: Self, tcx: Tcx, flags: Seq<bool>) -> Self;

    /// The shared flags after `merge`.
    spec fn spec_merge_flags(self, other: Self, flags: Seq<bool>) -> Seq<bool>;

    /// What `compute_rvalue` does, from the state machine `sa` and report
    /// `ra` to `sb` and `rb`, returning `r`.
    spec fn rvalue_step(
        rvalue: Rvalue,
        body: Body,
        tcx: Tcx,
        span: u32,
        sa: SmState<Self>,
        ra: Report,
        r: Self,
        sb: SmState<Self>,
        rb: Report,
    ) -> bool;

    /// What `compute_operand` does (see `rvalue_step`).
    spec fn operand_step(
        op: Operand,
        body: Body,
        tcx: Tcx,
        span: u32,
        sa: SmState<Self>,
        ra: Report,
        r: Self,
        sb: SmState<Self>,
        rb: Report,
    ) -> bool;

    /// What `compute_place` does (see `rvalue_step`).
    spec fn place_step(
        place: PlaceView,
        body: Body,
        tcx: Tcx,
        span: Option<u32>,
        sa: SmState<Self>,
        ra: Report,
        r: Self,
        sb: SmState<Self>,
        rb: Report,
    ) -> bool;

    /// What `init_place` does (see `rvalue_step`).
    spec fn init_step(
        place: PlaceView,
        body: Body,
        tcx: Tcx,
        sa: SmState<Self>,
        ra: Report,
        r: Self,
        sb: SmState<Self>,
        rb: Report,
    ) -> bool;

    /// What `compute_terminator` does (see `rvalue_step`).
    spec fn terminator_step(
        terminator: Terminator,
        body: Body,
        tcx: Tcx,
        span: u32,
        sa: SmState<Self>,
        ra: Report,
        r: Self,
        sb: SmState<Self>,
        rb: Report,
    ) -> bool;

    /// A copy of the state.
    fn dup(&self) -> (r: Self)
        ensures
            r == *self,
    ;

    /// The state of the value of an rvalue.
    fn compute_rvalue(
        rvalue: &Rvalue,
        body: &Body,
        tcx: &Tcx,
        sm: &mut StateMachine<Self>,
        report: &mut Report,
        span: u32,
    ) -> (r: Self)
        requires
            old(sm).wf(),
            old(sm).stack().len() > 0,
            report_wf(*old(report)),
        ensures
            final(sm).wf(),
            final(sm).stack() == old(sm).stack(),
            final(sm).func_states() == old(sm).func_states(),
            report_grows(*old(report), *final(report)),
            states_kept(old(sm).states(), final(sm).states()),
            changes_only(old(sm).states(), final(sm).states(), old(sm).stack().last()),
            Self::rvalue_step(*rvalue, *body, *tcx, span, old(sm).sm_state(), *old(report), r, final(sm).sm_state(), *final(report)),
    ;

    /// The state of the value of an operand.
    fn compute_operand(
        op: &Operand,
        body: &Body,
        tcx: &Tcx,
        sm: &mut StateMachine<Self>,
        report: &mut Report,
        span: u32,
    ) -> (r: Self)
        requires
            old(sm).wf(),
            old(sm).stack().len() > 0,
            report_wf(*old(report)),
        ensures
            final(sm).wf(),
            final(sm).stack() == old(sm).stack(),
            final(sm).func_states() == old(sm).func_states(),
            report_grows(*old(report), *final(report)),
            states_kept(old(sm).states(), final(sm).states()),
            changes_only(old(sm).states(), final(sm).states(), old(sm).stack().last()),
            Self::operand_step(*op, *body, *tcx, span, old(sm).sm_state(), *old(report), r, final(sm).sm_state(), *final(report)),
    ;

    /// The state of a place.
    fn compute_place(
        place: &Place,
        body: &Body,
        tcx: &Tcx,
        sm: &mut StateMachine<Self>,
        report: &mut Report,
        span: Option<u32>,
    ) -> (r: Self)
        requires
            old(sm).wf(),
            old(sm).stack().len() > 0,
            report_wf(*old(report)),
        ensures
            final(sm).wf(),
            final(sm).stack() == old(sm).stack(),
            final(sm).func_states() == old(sm).func_states(),
            report_grows(*old(report), *final(report)),
            states_kept(old(sm).states(), final(sm).states()),
            changes_only(old(sm).states(), final(sm).states(), old(sm).stack().last()),
            Self::place_step(place@, *body, *tcx, span, old(sm).sm_state(), *old(report), r, final(sm).sm_state(), *final(report)),
    ;

    /// The initial state of a place.
    fn init_place(
        place: &Place,
        body: &Body,
        tcx: &Tcx,
        sm: &mut StateMachine<Self>,
        report: &mut Report,
    ) -> (r: Self)
        requires
            old(sm).wf(),
            old(sm).stack().len() > 0,
            report_wf(*old(report)),
        ensures
            final(sm).wf(),
            final(sm).stack() == old(sm).stack(),
            final(sm).func_states() == old(sm).func_states(),
            report_grows(*old(report), *final(report)),
            states_kept(old(sm).states(), final(sm).states()),
            changes_only(old(sm).states(), final(sm).states(), old(sm).stack().last()),
            Self::init_step(place@, *body, *tcx, old(sm).sm_state(), *old(report), r, final(sm).sm_state(), *final(report)),
    ;

    /// Joins two states of one place.
    fn merge(&self, other: Self, body: &Body, tcx: &Tcx, sm: &mut StateMachine<Self>) -> (r: Self)
        requires
            old(sm).wf(),
        ensures
            final(sm).wf(),
            r == self.spec_merge(other, *tcx, old(sm).flags()),
            final(sm).flags() == self.spec_merge_flags(other, old(sm).flags()),
            final(sm).states() == old(sm).states(),
            final(sm).func_states() == old(sm).func_states(),
            final(sm).stack() == old(sm).stack(),
    ;

    /// The state of the value that a terminator produces.
    fn compute_terminator(
        terminator: &Terminator,
        body: &Body,
        tcx: &Tcx,
        sm: &mut StateMachine<Self>,
        report: &mut Report,
        span: u32,
    ) -> (r: Self)
        requires
            arity_fits(*tcx, *terminator),
            old(sm).wf(),
            old(sm).stack().len() > 0,
            report_wf(*old(report)),
        ensures
            final(sm).wf(),
            final(sm).stack() == old(sm).stack(),
            final(sm).func_states() == old(sm).func_states(),
            report_grows(*old(report), *final(report)),
            states_kept(old(sm).states(), final(sm).states()),
            changes_only(old(sm).states(), final(sm).states(), old(sm).stack().last()),
            Self::terminator_step(*terminator, *body, *tcx, span, old(sm).sm_state(), *old(report), r, final(sm).sm_state(), *final(report)),
    ;

    /// Whether the analysis looks at this function.
    fn is_interesting_fn(body: &Body, tcx: &Tcx, sm: &StateMachine<Self>) -> (r: bool)
        default_ensures
            r,
    {
        true
    }

    /// The initial state that `compute_func` gives a function, given the
    /// shared flags before the call (none when the analysis keeps none).
    spec fn spec_compute_func(body: Body, tcx: Tcx, flags: Seq<bool>) -> Option<Self>;

    /// The shared flags after `compute_func`, given those before.
    spec fn spec_compute_func_flags(body: Body, tcx: Tcx, flags: Seq<bool>) -> Seq<bool>;

    /// The initial state of a function, if the analysis keeps one.
    fn compute_func(body: &Body, tcx: &Tcx, sm: &mut StateMachine<Self>) -> (r: Option<Self>)
        requires
            old(sm).wf(),
        ensures
            final(sm).wf(),
            final(sm).flags() == Self::spec_compute_func_flags(*body, *tcx, old(sm).flags()),
            final(sm).stack() == old(sm).stack(),
            final(sm).func_states() == old(sm).func_states(),
            final(sm).states() == old(sm).states(),
            r == Self::spec_compute_func(*body, *tcx, old(sm).flags()),
    ;

    /// What `report_func` does to the report: `before` is the report before
    /// the call and `after` the report after it, for a function with the
    /// given body and state, in a state machine with the given function
    /// states, stack and flags.
    spec fn spec_report_func(
        body: Body,
        tcx: Tcx,
        state: Self,
        func_states: Map<DefId, Self>,
        stack: Seq<DefId>,
        flags: Seq<bool>,
        before: Report,
        after: Report,
    ) -> bool;

    /// Reports what the state of a function shows once it has been analysed.
    fn report_func(
        body: &Body,
        tcx: &Tcx,
        state: Self,
        sm: &mut StateMachine<Self>,
        report: &mut Report,
    )
        requires
            old(sm).wf(),
            report_wf(*old(report)),
        ensures
            final(sm).wf(),
            final(sm).stack() == old(sm).stack(),
            final(sm).func_states() == old(sm).func_states(),
            final(sm).states() == old(sm).states(),
            final(sm).sm_state() == old(sm).sm_state(),
            report_grows(*old(report), *final(report)),
            Self::spec_report_func(
                *body,
                *tcx,
                state,
                old(sm).func_states(),
                old(sm).stack(),
                old(sm).flags(),
                *old(report),
                *final(report),
            ),
    ;
}

/// The state stored for a place after `update_full(place, t)`: `t` merged
/// into the earlier state, or `t` itself.
pub open spec fn updated_states<T: StateTransitor>(
    states: Map<FullPlaceView, T>,
    tcx: Tcx,
    flags: Seq<bool>,
    k: FullPlaceView,
    t: T,
) -> Map<FullPlaceView, T> {
    if states.contains_key(k) {
        states.insert(k, states[k].spec_merge(t, tcx, flags))
    } else {
        states.insert(k, t)
    }
}

/// The flags after `update_full(place, t)`.
pub open spec fn updated_flags<T: StateTransitor>(
    states: Map<FullPlaceView, T>,
    flags: Seq<bool>,
    k: FullPlaceView,
    t: T,
) -> Seq<bool> {
    if states.contains_key(k) {
        states[k].spec_merge_flags(t, flags)
    } else {
        flags
    }
}

impl FullPlaceRef {
    pub fn new(def_id: DefId, place: Place) -> (r: FullPlaceRef)
        ensures
            r.func == def_id,
            r.place == place,
    {
        FullPlaceRef { func: def_id, place }
    }
}

impl<T: StateTransitor> StateMachine<T> {
    /// Updates the state of a place: merges `t` into the state it has, or
    /// gives it `t`.
    pub fn update_full(&mut self, full_place: FullPlaceRef, t: T, body: &Body, tcx: &Tcx)
        requires
            old(self).wf(),
        ensures
            final(self).wf(),
            final(self).states() == updated_states(old(self).states(), *tcx, old(self).flags(), full_place@, t),
            final(self).flags() == updated_flags(old(self).states(), old(self).flags(), full_place@, t),
            final(self).func_states() == old(self).func_states(),
            final(self).stack() == old(self).stack(),
    {
        let old_st = match self.get_state(&full_place) {
            Some(s) => Some(s.dup()),
            None => None,
        };
        match old_st {
            Some(old_st) => {
                let st = old_st.merge(t, body, tcx, self);
                self.store(full_place, st);
            },
            None => {
                self.store(full_place, t);
            },
        }
    }

    /// Updates the state of a place of the function being analysed.
    pub fn update(&mut self, place: &Place, t: T, body: &Body, tcx: &Tcx)
        requires
            old(self).wf(),
            old(self).stack().len() > 0,
        ensures
            final(self).wf(),
            final(self).states() == updated_states(
                old(self).states(),
                *tcx,
                old(self).flags(),
                FullPlaceView { func: old(self).stack().last(), place: place@ },
                t,
            ),
            final(self).flags() == updated_flags(
                old(self).states(),
                old(self).flags(),
                FullPlaceView { func: old(self).stack().last(), place: place@ },
                t,
            ),
            final(self).func_states() == old(self).func_states(),
            final(self).stack() == old(self).stack(),
    {
        let full_place = FullPlaceRef::new(self.get_cur_func(), place.copy_place());
        self.update_full(full_place, t, body, tcx);
    }

    /// Gives a place its initial state.
    pub fn init(&mut self, place: &Place, body: &Body, tcx: &Tcx, report: &mut Report)
        requires
            old(self).wf(),
            old(self).stack().len() > 0,
            report_wf(*old(report)),
        ensures
            final(self).wf(),
            final(self).func_states() == old(self).func_states(),
            final(self).stack() == old(self).stack(),
            report_grows(*old(report), *final(report)),
            states_kept(old(self).states(), final(self).states()),
            final(self).states().contains_key(
                FullPlaceView { func: old(self).stack().last(), place: place@ },
            ),
            exists|r: T, s: SmState<T>, rep: Report|
                #[trigger] T::init_step(place@, *body, *tcx, old(self).sm_state(), *old(report), r, s, rep)
                    && *final(report) == rep && final(self).sm_state() == sm_update(
                    s,
                    *tcx,
                    FullPlaceView { func: old(self).stack().last(), place: place@ },
                    r,
                ),
    {
        let st = T::init_place(place, body, tcx, self, report);
        let ghost s1 = self.sm_state();
        self.update(place, st, body, tcx);
        proof {
            assert(T::init_step(place@, *body, *tcx, old(self).sm_state(), *old(report), st, s1, *report));
            assert(self.sm_state() == sm_update(s1, *tcx, FullPlaceView { func: old(self).stack().last(), place: place@ }, st));
        }
    }
}

/// A state that records nothing.
#[derive(Clone, Copy, Debug)]
pub struct NoopStateTransitor();

impl StateTransitor for NoopStateTransitor {
    open spec fn rvalue_step(
        rvalue: Rvalue,
        body: Body,
        tcx: Tcx,
        span: u32,
        sa: crate::wpa::SmState<Self>,
        ra: Report,
        r: Self,
        sb: crate::wpa::SmState<Self>,
        rb: Report,
    ) -> bool {
        &&& (sb == sa)
        &&& (rb == ra)
    }

    open spec fn operand_step(
        op: Operand,
        body: Body,
        tcx: Tcx,
        span: u32,
        sa: crate::wpa::SmState<Self>,
        ra: Report,
        r: Self,
        sb: crate::wpa::SmState<Self>,
        rb: Report,
    ) -> bool {
        &&& (sb == sa)
        &&& (rb == ra)
    }

    open spec fn place_step(
        place: crate::mir::PlaceView,
        body: Body,
        tcx: Tcx,
        span: Option<u32>,
        sa: crate::wpa::SmState<Self>,
        ra: Report,
        r: Self,
        sb: crate::wpa::SmState<Self>,
        rb: Report,
    ) -> bool {
        &&& (sb == sa)
        &&& (rb == ra)
    }

    open spec fn init_step(
        place: crate::mir::PlaceView,
        body: Body,
        tcx: Tcx,
        sa: crate::wpa::SmState<Self>,
        ra: Report,
        r: Self,
        sb: crate::wpa::SmState<Self>,
        rb: Report,
    ) -> bool {
        &&& (sb == sa)
        &&& (rb == ra)
    }

    open spec fn terminator_step(
        terminator: Terminator,
        body: Body,
        tcx: Tcx,
        span: u32,
        sa: crate::wpa::SmState<Self>,
        ra: Report,
        r: Self,
        sb: crate::wpa::SmState<Self>,
        rb: Report,
    ) -> bool {
        &&& (sb == sa)
        &&& (rb == ra)
    }

    open spec fn spec_compute_func(body: Body, tcx: Tcx, flags: Seq<bool>) -> Option<Self> {
        None
    }

    open spec fn spec_compute_func_flags(body: Body, tcx: Tcx, flags: Seq<bool>) -> Seq<bool> {
        flags
    }

    /// This analysis keeps no state per function.
    fn compute_func(body: &Body, tcx: &Tcx, sm: &mut StateMachine<Self>) -> (r: Option<Self>)
        ensures
            *final(sm) == *old(sm),
    {
        None
    }

    open spec fn spec_report_func(
        body: Body,
        tcx: Tcx,
        state: Self,
        func_states: Map<crate::mir::DefId, Self>,
        stack: Seq<crate::mir::DefId>,
        flags: Seq<bool>,
        before: Report,
        after: Report,
    ) -> bool {
        after == before
    }

    /// This analysis reports nothing once a function has been analysed.
    fn report_func(
        body: &Body,
        tcx: &Tcx,
        state: Self,
        sm: &mut StateMachine<Self>,
        report: &mut Report,
    )
        ensures
            *final(sm) == *old(sm),
            *final(report) == *old(report),
    {
    }

    open spec fn spec_merge(self, other: Self, tcx: Tcx, flags: Seq<bool>) -> Self {
        NoopStateTransitor()
    }

    open spec fn spec_merge_flags(self, other: Self, flags: Seq<bool>) -> Seq<bool> {
        flags
    }

    fn dup(&self) -> (r: Self) {
        NoopStateTransitor()
    }

    fn compute_rvalue(
        rvalue: &Rvalue,
        body: &Body,
        tcx: &Tcx,
        sm: &mut StateMachine<Self>,
        report: &mut Report,
        span: u32,
    ) -> (r: Self)
        ensures
            *final(sm) == *old(sm),
            *final(report) == *old(report),
    {
        NoopStateTransitor()
    }

    fn compute_operand(
        op: &Operand,
        body: &Body,
        tcx: &Tcx,
        sm: &mut StateMachine<Self>,
        report: &mut Report,
        span: u32,
    ) -> (r: Self)
        ensures
            *final(sm) == *old(sm),
            *final(report) == *old(report),
    {
        NoopStateTransitor()
    }

    fn compute_place(
        place: &Place,
        body: &Body,
        tcx: &Tcx,
        sm: &mut StateMachine<Self>,
        report: &mut Report,
        span: Option<u32>,
    ) -> (r: Self)
        ensures
            *final(sm) == *old(sm),
            *final(report) == *old(report),
    {
        NoopStateTransitor()
    }

    fn init_place(
        place: &Place,
        body: &Body,
        tcx: &Tcx,
        sm: &mut StateMachine<Self>,
        report: &mut Report,
    ) -> (r: Self)
        ensures
            *final(sm) == *old(sm),
            *final(report) == *old(report),
    {
        NoopStateTransitor()
    }

    fn merge(&self, other: Self, body: &Body, tcx: &Tcx, sm: &mut StateMachine<Self>) -> (r: Self)
        ensures
            *final(sm) == *old(sm),
    {
        NoopStateTransitor()
    }

    fn compute_terminator(
        terminator: &Terminator,
        body: &Body,
        tcx: &Tcx,
        sm: &mut StateMachine<Self>,
        report: &mut Report,
        span: u32,
    ) -> (r: Self)
        ensures
            *final(sm) == *old(sm),
            *final(report) == *old(report),
    {
        NoopStateTransitor()
    }
}

} // verus!

verus! {

/// The pattern that the path of a program's entry point matches: a
/// function named `entrypoint`, at the crate's root or in a module.
pub open spec fn entry_pattern() -> Seq<char> {
    "^(.*::)?entrypoint$"@
}

/// What `regex` answers when `text` is searched for `pattern`: `None` when
/// the pattern does not compile, else whether the text holds a match.
pub uninterp spec fn regex_match(pattern: Seq<char>, text: Seq<char>) -> Option<bool>;

/// `regex::Regex::new(pattern)` and, when it compiles, `Regex::is_match(text)`.
/// The contract claims no more than that the answer depends on the pattern and
/// the text alone.
#[verifier::external_body]
fn regex_is_match(pattern: &str, text: &str) -> (r: Option<bool>)
    ensures
        r == regex_match(pattern@, text@),
{
    match regex::Regex::new(pattern) {
        Ok(re) => Some(re.is_match(text)),
        Err(_) => None,
    }
}

/// Whether `text` holds a match of the (compiling) pattern.
pub open spec fn matches_pattern(pattern: Seq<char>, text: Seq<char>) -> bool {
    regex_match(pattern, text) == Some(true)
}

/// Whether `text` holds a match of the pattern.
pub fn is_match(pattern: &str, text: &str) -> (r: bool)
    ensures
        r == matches_pattern(pattern@, text@),
{
    match regex_is_match(pattern, text) {
        Some(b) => b,
        None => false,
    }
}

/// Whether `text` holds a match of one of the patterns.
pub open spec fn matches_any(patterns: Seq<Seq<char>>, text: Seq<char>) -> bool {
    exists|i: int| 0 <= i < patterns.len() && matches_pattern(#[trigger] patterns[i], text)
}

/// Whether `text` holds a match of one of the patterns.
pub fn is_match_any(patterns: &Vec<String>, text: &str) -> (r: bool)
    ensures
        r == matches_any(strings_view(patterns@), text@),
{
    let mut i: usize = 0;
    while i < patterns.len()
        invariant
            i <= patterns@.len(),
            forall|j: int| 0 <= j < i ==> !matches_pattern(#[trigger] strings_view(patterns@)[j], text@),
        decreases patterns@.len() - i,
    {
        if is_match(patterns[i].as_str(), text) {
            assert(matches_pattern(strings_view(patterns@)[i as int], text@));
            return true;
        }
        i = i + 1;
    }
    false
}

/// The first of `tcx.fn_items[i..]` that is flagged in `matched` and has a
/// body.
pub open spec fn first_with_body(tcx: Tcx, matched: Seq<bool>, i: int) -> Option<DefId>
    decreases tcx.fn_items@.len() - i,
{
    if i < 0 || i >= tcx.fn_items@.len() {
        None
    } else if i < matched.len() && matched[i] && body_of(tcx, tcx.fn_items@[i]).is_some() {
        Some(tcx.fn_items@[i])
    } else {
        first_with_body(tcx, matched, i + 1)
    }
}

/// For each function item, whether its path matches the entry pattern.
pub open spec fn entry_matches(tcx: Tcx) -> Seq<bool> {
    Seq::new(
        tcx.fn_items@.len(),
        |i: int| matches_pattern(entry_pattern(), def_path(tcx, tcx.fn_items@[i])),
    )
}

/// The program's entry point: the first function item, in item order, whose
/// path matches the entry pattern and that has a body.
pub open spec fn entry_of(tcx: Tcx) -> Option<DefId> {
    first_with_body(tcx, entry_matches(tcx), 0)
}

/// The first function item that is flagged in `matched` and has a body.
pub fn first_entry(tcx: &Tcx, matched: &Vec<bool>) -> (r: Option<DefId>)
    ensures
        r == first_with_body(*tcx, matched@, 0),
{
    let mut i: usize = 0;
    while i < tcx.fn_items.len()
        invariant
            i <= tcx.fn_items@.len(),
            first_with_body(*tcx, matched@, 0) == first_with_body(*tcx, matched@, i as int),
        decreases tcx.fn_items@.len() - i,
    {
        let d = tcx.fn_items[i];
        if i < matched.len() && matched[i] {
            if tcx.optimized_mir(d).is_some() {
                return Some(d);
            }
        }
        i = i + 1;
    }
    None
}

/// Finds the program's entry point.
pub fn find_entry(tcx: &Tcx) -> (r: Option<DefId>)
    ensures
        r == entry_of(*tcx),
{
    let pattern = "^(.*::)?entrypoint$";
    let mut matched: Vec<bool> = Vec::new();
    let mut i: usize = 0;
    while i < tcx.fn_items.len()
        invariant
            i <= tcx.fn_items@.len(),
            pattern@ == entry_pattern(),
            matched@.len() == i,
            forall|j: int| 0 <= j < i ==> #[trigger] matched@[j] == entry_matches(*tcx)[j],
        decreases tcx.fn_items@.len() - i,
    {
        let path = tcx.def_path_str(tcx.fn_items[i]);
        matched.push(is_match(pattern, path.as_str()));
        i = i + 1;
    }
    assert(matched@ =~= entry_matches(*tcx));
    first_entry(tcx, &matched)
}

/// Calls that are analysed even where the blacklist names them.
pub open spec fn call_whitelist() -> Seq<Seq<char>> {
    seq![".*::try_accounts"@, ".*::try_from"@]
}

/// Calls whose bodies are not analysed.
pub open spec fn call_blacklist() -> Seq<Seq<char>> {
    seq!["std::.*"@, "core::*"@, "alloc::.*"@, "anchor_lang::.*"@, "curve25519_dalek::.*"@]
}

/// Whether a call of `callee` is left unanalysed: its path matches the
/// blacklist and not the whitelist.
pub open spec fn is_skipped_call(tcx: Tcx, callee: DefId) -> bool {
    !matches_any(call_whitelist(), def_path(tcx, callee)) && matches_any(
        call_blacklist(),
        def_path(tcx, callee),
    )
}

/// The function that a constant operand names: a function item as it
/// resolves in the caller, or a closure.
pub open spec fn const_target(tcx: Tcx, func: Operand) -> Option<DefId> {
    match func {
        Operand::Constant(c) => match ty_of(tcx, c.ty) {
            Some(d) => match d.kind {
                TyKind::FnDef(_) => c.resolved,
                TyKind::Closure(f) => Some(f),
                _ => None,
            },
            None => None,
        },
        _ => None,
    }
}

/// The function that a statement gives place `p`, when it assigns `p` a
/// constant that names a function.
pub open spec fn stmt_target(tcx: Tcx, stmt: Statement, p: PlaceView) -> Option<DefId> {
    match stmt.kind {
        StatementKind::Assign(q, rv) => match rv {
            Rvalue::Use(op) => if q@ == p { const_target(tcx, op) } else { None },
            _ => None,
        },
        _ => None,
    }
}

/// The function given to `p` by the first of statements `j..` that gives
/// it one.
pub open spec fn stmts_target(tcx: Tcx, stmts: Seq<Statement>, p: PlaceView, j: int) -> Option<DefId>
    decreases stmts.len() - j,
{
    if j < 0 || j >= stmts.len() {
        None
    } else {
        match stmt_target(tcx, stmts[j], p) {
            Some(d) => Some(d),
            None => stmts_target(tcx, stmts, p, j + 1),
        }
    }
}

/// The function given to `p` by the first statement, in blocks `b..` of
/// the body, that gives it one.
pub open spec fn blocks_target(tcx: Tcx, body: Body, p: PlaceView, b: int) -> Option<DefId>
    decreases body.basic_blocks@.len() - b,
{
    if b < 0 || b >= body.basic_blocks@.len() {
        None
    } else {
        match stmts_target(tcx, body.basic_blocks@[b].statements@, p, 0) {
            Some(d) => Some(d),
            None => blocks_target(tcx, body, p, b + 1),
        }
    }
}

/// The function that a call operand targets: a function item as it
/// resolves in the caller, or a closure; for a call through a place, the
/// function that the body's local data flow gives that place (the first
/// assignment of a function to it).
pub open spec fn call_target(tcx: Tcx, body: Body, func: Operand) -> Option<DefId> {
    match func {
        Operand::Constant(_) => const_target(tcx, func),
        Operand::Copy(p) => blocks_target(tcx, body, p@, 0),
        Operand::Move(p) => blocks_target(tcx, body, p@, 0),
    }
}

/// The number of parameters of the functions whose calls the analyses
/// read, by path: `delegate_stake` takes three; `eq`, `ne`,
/// `create_program_address` and the functions whose path holds
/// `cmp_pubkeys` take two.
pub open spec fn known_arity(path: Seq<char>) -> Option<nat> {
    if path == "anchor_lang::solana_program::stake::instruction::delegate_stake"@ {
        Some(3)
    } else if path == "std::cmp::PartialEq::eq"@ || path == "std::cmp::PartialEq::ne"@ || path
        == "anchor_lang::prelude::Pubkey::create_program_address"@ || seq_contains(path, "cmp_pubkeys"@) {
        Some(2)
    } else {
        None
    }
}

/// A call of a function item whose number of parameters is known passes
/// that many arguments.
pub open spec fn arity_fits(tcx: Tcx, t: Terminator) -> bool {
    match t.kind {
        TerminatorKind::Call { func: Operand::Constant(c), args, .. } => match ty_of(tcx, c.ty) {
            Some(d) => match d.kind {
                TyKind::FnDef(f) => match known_arity(def_path(tcx, f)) {
                    Some(n) => args@.len() == n,
                    None => true,
                },
                _ => true,
            },
            None => true,
        },
        _ => true,
    }
}

/// The number of parameters of a function, by path (see `known_arity`).
fn known_arity_exec(path: &str) -> (r: Option<usize>)
    ensures
        match r {
            Some(n) => known_arity(path@) == Some(n as nat),
            None => known_arity(path@) is None,
        },
{
    proof {
        reveal_strlit("anchor_lang::solana_program::stake::instruction::delegate_stake");
        reveal_strlit("std::cmp::PartialEq::eq");
        reveal_strlit("std::cmp::PartialEq::ne");
        reveal_strlit("anchor_lang::prelude::Pubkey::create_program_address");
        reveal_strlit("cmp_pubkeys");
    }
    if str_eq(path, "anchor_lang::solana_program::stake::instruction::delegate_stake") {
        Some(3)
    } else if str_eq(path, "std::cmp::PartialEq::eq") || str_eq(path, "std::cmp::PartialEq::ne") || str_eq(
        path,
        "anchor_lang::prelude::Pubkey::create_program_address",
    ) || str_contains(path, "cmp_pubkeys") {
        Some(2)
    } else {
        None
    }
}

/// Whether the call passes as many arguments as its target is known to
/// take (see `arity_fits`).
fn arity_fits_exec(tcx: &Tcx, t: &Terminator) -> (r: bool)
    ensures
        r == arity_fits(*tcx, *t),
{
    match &t.kind {
        TerminatorKind::Call { func: Operand::Constant(c), args, .. } => match tcx.ty(c.ty) {
            Some(d) => match &d.kind {
                TyKind::FnDef(f) => {
                    let path = tcx.def_path_str(*f);
                    match known_arity_exec(path.as_str()) {
                        Some(n) => args.len() == n,
                        None => true,
                    }
                },
                _ => true,
            },
            None => true,
        },
        _ => true,
    }
}

/// The terminator passes as many arguments as its target is known to take,
/// and, if it calls a function that has a body and is not a closure, as
/// many as that function takes.
pub open spec fn term_fits(tcx: Tcx, body: Body, t: Option<Terminator>) -> bool {
    match t {
        Some(t) => arity_fits(tcx, t) && match t.kind {
            TerminatorKind::Call { func, args, .. } => match call_target(tcx, body, func) {
                Some(c) => match body_of(tcx, c) {
                    Some(cb) => !cb.is_closure ==> args@.len() == cb.arg_count,
                    None => true,
                },
                None => true,
            },
            _ => true,
        },
        None => true,
    }
}

/// Every call of the body fits its target (see `term_fits`).
pub open spec fn calls_fit(tcx: Tcx, body: Body) -> bool {
    forall|b: int|
        0 <= b < body.basic_blocks@.len() ==> term_fits(tcx, body, #[trigger] body.basic_blocks@[b].terminator)
}

/// Every body of the crate is that of the definition it is stored under,
/// and every call of it fits its target, as the compiler guarantees for the
/// programs it accepts.
pub open spec fn program_calls_fit(tcx: Tcx) -> bool {
    forall|d: DefId| #[trigger] body_of(tcx, d) is Some ==> calls_fit(tcx, body_of(tcx, d)->0)
        && body_of(tcx, d)->0.def_id == d
}

/// The walk into callee `c` (whose body the crate holds): every block of
/// its body reached in reverse postorder leaves its assigned places and
/// call destinations with states under `c` (see `block_kept`), and `c`'s
/// state is the initial state that the analysis gives it (for the flags at
/// the time of the call), or, when it gives none, the state it had.
pub open spec fn walked_callee<T: StateTransitor>(
    tcx: Tcx,
    c: DefId,
    func_states_before: Map<DefId, T>,
    states: Map<FullPlaceView, T>,
    func_states: Map<DefId, T>,
) -> bool {
    let cb = body_of(tcx, c)->0;
    &&& forall|i: int|
        0 <= i < cb.rpo@.len() && cb.rpo@[i] < cb.basic_blocks@.len() ==> #[trigger] block_kept(
            states,
            c,
            tcx,
            cb,
            cb.rpo@[i],
        )
    &&& exists|f: Seq<bool>|
        match #[trigger] T::spec_compute_func(cb, tcx, f) {
            Some(t) => func_states.contains_key(c) && func_states[c] == t,
            None => func_states.contains_key(c) == func_states_before.contains_key(c) && (
            func_states_before.contains_key(c) ==> func_states[c] == func_states_before[c]),
        }
}

/// `b` follows from `a` by a computation that changes only the states of
/// `k`'s function, then an update of `k` with a computed state: the
/// computed state merged into the state `k` had, or given to `k` when it had
/// none.
pub open spec fn assigned_by<T: StateTransitor>(
    a: Map<FullPlaceView, T>,
    b: Map<FullPlaceView, T>,
    b_flags: Seq<bool>,
    tcx: Tcx,
    k: FullPlaceView,
) -> bool {
    exists|s: Map<FullPlaceView, T>, f: Seq<bool>, t: T|
        #![trigger updated_states(s, tcx, f, k, t)]
        changes_only(a, s, k.func) && b == updated_states(s, tcx, f, k, t) && b_flags == updated_flags(s, f, k, t)
}

/// A state computed for `k` merged into the state that `k` has in `a`, or
/// the computed state itself when `k` has none.
pub open spec fn merged_value<T: StateTransitor>(
    a: Map<FullPlaceView, T>,
    tcx: Tcx,
    k: FullPlaceView,
    t: T,
    flags: Seq<bool>,
) -> T {
    if a.contains_key(k) { a[k].spec_merge(t, tcx, flags) } else { t }
}

/// In `b`, `k` holds a computed state merged into the state it had in `a`
/// (see `merged_value`).
pub open spec fn merged_into<T: StateTransitor>(a: Map<FullPlaceView, T>, b: Map<FullPlaceView, T>, tcx: Tcx, k: FullPlaceView) -> bool {
    &&& b.contains_key(k)
    &&& exists|t: T, f: Seq<bool>| b[k] == #[trigger] merged_value(a, tcx, k, t, f)
}

proof fn lemma_merged_kept<T: StateTransitor>(
    a: Map<FullPlaceView, T>,
    b: Map<FullPlaceView, T>,
    c: Map<FullPlaceView, T>,
    tcx: Tcx,
    k: FullPlaceView,
)
    requires
        merged_into(a, b, tcx, k),
        c.contains_key(k),
        c[k] == b[k],
    ensures
        merged_into(a, c, tcx, k),
{
    let (t, f) = choose|t: T, f: Seq<bool>| b[k] == #[trigger] merged_value(a, tcx, k, t, f);
    assert(c[k] == merged_value(a, tcx, k, t, f));
}

/// `k` has the same state (or none) in `a` and `b`.
pub open spec fn untouched<T>(a: Map<FullPlaceView, T>, b: Map<FullPlaceView, T>, k: FullPlaceView) -> bool {
    &&& b.contains_key(k) == a.contains_key(k)
    &&& a.contains_key(k) ==> b[k] == a[k]
}

/// Every function on the stack has been entered by the walk.
pub open spec fn stack_visited(stack: Seq<DefId>, visited: Set<DefId>) -> bool {
    forall|d: DefId| #[trigger] stack.contains(d) ==> visited.contains(d)
}

/// The place of the return value.
pub open spec fn return_place() -> PlaceView {
    PlaceView { local: 0, projection: Seq::empty() }
}

/// A statement that assigns a place leaves that place with a state under
/// `func`; other statements ask nothing.
pub open spec fn stmt_kept<T>(states: Map<FullPlaceView, T>, func: DefId, stmt: Statement) -> bool {
    match stmt.kind {
        StatementKind::Assign(q, _) => states.contains_key(FullPlaceView { func, place: q@ }),
        _ => true,
    }
}

/// A call whose target is known leaves its destination with a state under
/// `func`; other terminators ask nothing.
pub open spec fn term_kept<T>(states: Map<FullPlaceView, T>, func: DefId, tcx: Tcx, body: Body, t: Option<Terminator>) -> bool {
    match t {
        Some(t) => match t.kind {
            TerminatorKind::Call { func: callee, destination, .. } => match (
                call_target(tcx, body, callee),
                destination,
            ) {
                (Some(_), Some(dest)) => states.contains_key(FullPlaceView { func, place: dest.0@ }),
                _ => true,
            },
            _ => true,
        },
        None => true,
    }
}

/// Every place that a statement of block `b` assigns, and the destination
/// of its call, have a state under `func`.
pub open spec fn block_kept<T>(states: Map<FullPlaceView, T>, func: DefId, tcx: Tcx, body: Body, b: usize) -> bool {
    &&& forall|j: int|
        0 <= j < body.basic_blocks@[b as int].statements@.len() ==> stmt_kept(
            states,
            func,
            #[trigger] body.basic_blocks@[b as int].statements@[j],
        )
    &&& term_kept(states, func, tcx, body, body.basic_blocks@[b as int].terminator)
}

proof fn lemma_stmt_kept<T>(a: Map<FullPlaceView, T>, b: Map<FullPlaceView, T>, func: DefId, stmt: Statement)
    requires
        states_kept(a, b),
        stmt_kept(a, func, stmt),
    ensures
        stmt_kept(b, func, stmt),
{
    match stmt.kind {
        StatementKind::Assign(q, _) => {
            assert(a.contains_key(FullPlaceView { func, place: q@ }));
        },
        _ => {},
    }
}

proof fn lemma_block_kept<T>(
    a: Map<FullPlaceView, T>,
    b: Map<FullPlaceView, T>,
    func: DefId,
    tcx: Tcx,
    body: Body,
    blk: usize,
)
    requires
        states_kept(a, b),
        block_kept(a, func, tcx, body, blk),
    ensures
        block_kept(b, func, tcx, body, blk),
{
    match body.basic_blocks@[blk as int].terminator {
        Some(t) => match t.kind {
            TerminatorKind::Call { func: callee, destination, .. } => match (
                call_target(tcx, body, callee),
                destination,
            ) {
                (Some(_), Some(dest)) => {
                    assert(a.contains_key(FullPlaceView { func, place: dest.0@ }));
                },
                _ => {},
            },
            _ => {},
        },
        None => {},
    }
    assert forall|j: int| 0 <= j < body.basic_blocks@[blk as int].statements@.len() implies stmt_kept(
        b,
        func,
        #[trigger] body.basic_blocks@[blk as int].statements@[j],
    ) by {
        lemma_stmt_kept(a, b, func, body.basic_blocks@[blk as int].statements@[j]);
    }
}

/// The functions of `visited` keep their states (and whether they have one)
/// from `a` to `b`.
pub open spec fn func_states_kept<T>(visited: Set<DefId>, a: Map<DefId, T>, b: Map<DefId, T>) -> bool {
    forall|d: DefId|
        #[trigger] visited.contains(d) ==> a.contains_key(d) == b.contains_key(d) && (a.contains_key(d)
            ==> b[d] == a[d])
}

/// The place of the `k`-th parameter (locals `1..=arg_count`).
pub open spec fn param_place(k: int) -> PlaceView {
    PlaceView { local: k as u32, projection: Seq::empty() }
}

/// A stack of distinct function ids holds at most one entry per `u32`.
pub proof fn lemma_distinct_ids_bounded(s: Seq<DefId>)
    requires
        s.no_duplicates(),
    ensures
        s.len() <= 0x1_0000_0000,
{
    let m = s.map_values(|x: DefId| x as int);
    assert(m.no_duplicates()) by {
        assert forall|a: int, b: int| 0 <= a < m.len() && 0 <= b < m.len() && a != b implies m[a]
            != m[b] by {
            assert(s[a] != s[b]);
        }
    }
    m.unique_seq_to_set();
    let range = vstd::set_lib::set_int_range(0, 0x1_0000_0000);
    assert(m.to_set().subset_of(range)) by {
        assert forall|x: int| m.to_set().contains(x) implies range.contains(x) by {
            let k = choose|k: int| 0 <= k < m.len() && m[k] == x;
            assert(m[k] == s[k] as int);
        }
    }
    vstd::set_lib::lemma_int_range(0, 0x1_0000_0000);
    vstd::set_lib::lemma_len_subset(m.to_set(), range);
}

/// The function that a call targets (see `call_target`).
pub fn resolve_target(tcx: &Tcx, func: &Operand, body: &Body) -> (r: Option<DefId>)
    ensures
        r == call_target(*tcx, *body, *func),
{
    match func {
        Operand::Constant(_) => const_call_target(tcx, func),
        Operand::Copy(p) | Operand::Move(p) => local_call_target(tcx, p, body),
    }
}

/// The function that a constant operand names (see `const_target`).
fn const_call_target(tcx: &Tcx, func: &Operand) -> (r: Option<DefId>)
    ensures
        r == const_target(*tcx, *func),
{
    match func {
        Operand::Constant(c) => match tcx.ty(c.ty) {
            Some(d) => match &d.kind {
                TyKind::FnDef(_) => c.resolved,
                TyKind::Closure(f) => Some(*f),
                _ => None,
            },
            None => None,
        },
        _ => None,
    }
}

/// The function that the body's first assignment of a function to the
/// place gives it (see `blocks_target`).
fn local_call_target(tcx: &Tcx, p: &Place, body: &Body) -> (r: Option<DefId>)
    ensures
        r == blocks_target(*tcx, *body, p@, 0),
{
    let mut b: usize = 0;
    while b < body.basic_blocks.len()
        invariant
            b <= body.basic_blocks@.len(),
            blocks_target(*tcx, *body, p@, 0) == blocks_target(*tcx, *body, p@, b as int),
        decreases body.basic_blocks@.len() - b,
    {
        let stmts = &body.basic_blocks[b].statements;
        let mut j: usize = 0;
        while j < stmts.len()
            invariant
                j <= stmts@.len(),
                b < body.basic_blocks@.len(),
                *stmts == body.basic_blocks@[b as int].statements,
                blocks_target(*tcx, *body, p@, 0) == blocks_target(*tcx, *body, p@, b as int),
                stmts_target(*tcx, stmts@, p@, 0) == stmts_target(*tcx, stmts@, p@, j as int),
            decreases stmts@.len() - j,
        {
            match &stmts[j].kind {
                StatementKind::Assign(q, rv) => match rv {
                    Rvalue::Use(op) => {
                        if place_eq(q, p) {
                            match const_call_target(tcx, op) {
                                Some(d) => {
                                    proof {
                                        assert(stmt_target(*tcx, stmts@[j as int], p@) == Some(d));
                                        assert(stmts_target(*tcx, stmts@, p@, j as int) == Some(d));
                                    }
                                    return Some(d);
                                },
                                None => {},
                            }
                        }
                    },
                    _ => {},
                },
                _ => {},
            }
            j = j + 1;
        }
        b = b + 1;
    }
    None
}

/// Whether the terminator fits its target (see `term_fits`).
fn term_fits_exec(tcx: &Tcx, body: &Body, t: &Option<Terminator>) -> (r: bool)
    ensures
        r == term_fits(*tcx, *body, *t),
{
    match t {
        Some(t) => arity_fits_exec(tcx, t) && match &t.kind {
            TerminatorKind::Call { func, args, .. } => match resolve_target(tcx, func, body) {
                Some(c) => match tcx.optimized_mir(c) {
                    Some(cb) => cb.is_closure || args.len() == cb.arg_count,
                    None => true,
                },
                None => true,
            },
            _ => true,
        },
        None => true,
    }
}

/// Whether every call of the body fits its target (see `calls_fit`).
fn body_calls_fit(tcx: &Tcx, body: &Body) -> (r: bool)
    ensures
        r == calls_fit(*tcx, *body),
{
    let mut b: usize = 0;
    while b < body.basic_blocks.len()
        invariant
            b <= body.basic_blocks@.len(),
            forall|k: int| 0 <= k < b ==> term_fits(*tcx, *body, #[trigger] body.basic_blocks@[k].terminator),
        decreases body.basic_blocks@.len() - b,
    {
        if !term_fits_exec(tcx, body, &body.basic_blocks[b].terminator) {
            return false;
        }
        b = b + 1;
    }
    true
}

/// Whether every call of every body of the crate fits its target (see
/// `program_calls_fit`); the walk asks for it.
pub fn check_calls_fit(tcx: &Tcx) -> (r: bool)
    ensures
        r == program_calls_fit(*tcx),
{
    let mut d: usize = 0;
    while d < tcx.bodies.len() && d <= 0xFFFF_FFFF
        invariant
            d <= tcx.bodies@.len(),
            d <= 0x1_0000_0000,
            forall|e: DefId| (e as int) < d ==> (#[trigger] body_of(*tcx, e) is Some ==> calls_fit(*tcx, body_of(*tcx, e)->0)
                && body_of(*tcx, e)->0.def_id == e),
        decreases tcx.bodies@.len() - d,
    {
        match &tcx.bodies[d] {
            Some(b) => {
                if !body_calls_fit(tcx, b) || b.def_id as usize != d {
                    proof {
                        let e = d as u32;
                        assert(body_of(*tcx, e) == Some(*b));
                    }
                    return false;
                }
            },
            None => {},
        }
        d = d + 1;
    }
    true
}

/// Walks the program from its entry point, with one kind of state, into
/// every call whose target is known and whose body is available.
pub struct WholeProgramTraverser<'a, T> {
    pub tcx: &'a Tcx,
    pub sm: StateMachine<T>,
    /// The functions the walk has entered (the entry point and each callee
    /// walked), so that no function is walked twice.
    pub visited: DefIdSet,
}

impl<'a, T: StateTransitor> WholeProgramTraverser<'a, T> {
    /// The analysed crate.
    pub open spec fn tcx(&self) -> Tcx {
        *self.tcx
    }

    /// The functions the walk has entered.
    pub open spec fn visited(&self) -> Set<DefId> {
        def_id_set_contents(self.visited)
    }

    /// What the walk holds, with the given report.
    pub open spec fn walk_state(&self, report: Report) -> WalkState<T> {
        WalkState { sm: self.sm.sm_state(), report, visited: self.visited() }
    }

    /// A traverser with an empty state machine.
    pub fn new(tcx: &'a Tcx) -> (r: Self)
        ensures
            r.tcx() == *tcx,
            r.sm.wf(),
            r.sm.states() == Map::<FullPlaceView, T>::empty(),
            r.sm.func_states() == Map::<DefId, T>::empty(),
            r.sm.stack() == Seq::<DefId>::empty(),
            r.sm.flags() == Seq::<bool>::empty(),
            r.visited() == Set::<DefId>::empty(),
    {
        WholeProgramTraverser { tcx, sm: StateMachine::new(), visited: DefIdSet::new() }
    }

    /// Whether the call is left unanalysed (see `is_skipped_call`).
    fn process_special_calls(&self, callee: DefId) -> (r: bool)
        ensures
            r == is_skipped_call(self.tcx(), callee),
    {
        let whitelist = vec![String::from_str(".*::try_accounts"), String::from_str(".*::try_from")];
        let blacklist = vec![
            String::from_str("std::.*"),
            String::from_str("core::*"),
            String::from_str("alloc::.*"),
            String::from_str("anchor_lang::.*"),
            String::from_str("curve25519_dalek::.*"),
        ];
        proof {
            reveal_strlit(".*::try_accounts");
            reveal_strlit(".*::try_from");
            reveal_strlit("std::.*");
            reveal_strlit("core::*");
            reveal_strlit("alloc::.*");
            reveal_strlit("anchor_lang::.*");
            reveal_strlit("curve25519_dalek::.*");
            assert(strings_view(whitelist@) =~= call_whitelist());
            assert(strings_view(blacklist@) =~= call_blacklist());
        }
        let name = self.tcx.def_path_str(callee);
        if is_match_any(&whitelist, name.as_str()) {
            return false;
        }
        is_match_any(&blacklist, name.as_str())
    }

    /// The function that a call targets (see `call_target`).
    fn resolve_call_target(&self, func: &Operand, body: &Body) -> (r: Option<DefId>)
        ensures
            r == call_target(self.tcx(), *body, *func),
    {
        resolve_target(self.tcx, func, body)
    }

}

impl<'a, T: StateTransitor> WholeProgramTraverser<'a, T> {
    /// Starts the walk at the program's entry point, if it has one; the
    /// report's record of seen call stacks is cleared first. The state
    /// machine, report and visited cache end as `start_walk` says.
    pub fn start(&mut self, report: &mut Report)
        requires
            program_calls_fit(old(self).tcx()),
            old(self).sm.wf(),
            old(self).sm.stack().len() == 0,
            report_wf(*old(report)),
        ensures
            final(self).sm.wf(),
            final(self).sm.stack().len() == 0,
            final(self).tcx() == old(self).tcx(),
            report_grows(*old(report), *final(report)),
            match entry_of(old(self).tcx()) {
                Some(entry) => {
                    &&& old(self).visited().insert(entry).subset_of(final(self).visited())
                    &&& match body_of(old(self).tcx(), entry) {
                        Some(b) => {
                            &&& (match T::spec_compute_func(b, old(self).tcx(), old(self).sm.flags()) {
                                Some(t) => final(self).sm.func_states().contains_key(entry)
                                    && final(self).sm.func_states()[entry] == t,
                                None => true,
                            })
                            &&& forall|i: int|
                                0 <= i < b.rpo@.len() && b.rpo@[i] < b.basic_blocks@.len() ==> #[trigger] block_kept(
                                    final(self).sm.states(),
                                    b.def_id,
                                    old(self).tcx(),
                                    b,
                                    b.rpo@[i],
                                )
                        },
                        None => {
                            &&& final(self).sm == old(self).sm
                            &&& *final(report) == (Report { filtered: final(report).filtered, ..*old(report) })
                            &&& final(report).filtered@.len() == 0
                        },
                    }
                },
                None => {
                    &&& *final(self) == *old(self)
                    &&& *final(report) == (Report { filtered: final(report).filtered, ..*old(report) })
                    &&& final(report).filtered@.len() == 0
                },
            },
            start_walk::<T>(old(self).tcx(), old(self).walk_state(*old(report)), final(self).walk_state(*final(report))),
    {
        let ghost w0 = self.walk_state(*report);
        report.reset_filter();
        let ghost r0 = *report;
        proof {
            assert(filter_cleared(w0.report, r0));
        }
        let tcx: &'a Tcx = self.tcx;
        match find_entry(tcx) {
            Some(entry) => {
                self.visited.insert(entry);
                let ghost w1 = self.walk_state(*report);
                proof {
                    assert(w1 == (WalkState { report: r0, visited: w0.visited.insert(entry), ..w0 }));
                }
                match tcx.optimized_mir(entry) {
                    Some(body) => {
                        match T::compute_func(body, tcx, &mut self.sm) {
                            Some(func_t) => {
                                self.sm.set_func_state(entry, func_t);
                            },
                            None => {},
                        }
                        proof {
                            assert(self.walk_state(*report) == func_entered::<T>(*tcx, entry, *body, w1));
                        }
                        let ghost v1 = self.visited();
                        let ghost fs1 = self.sm.func_states();
                        proof {
                            assert(v1.contains(entry));
                            assert(!self.sm.stack().contains(body.def_id));
                        }
                        self.process_func(body, report);
                        proof {
                            assert(v1.contains(entry));
                        }
                    },
                    None => {},
                }
            },
            None => {},
        }
    }

    /// Reports what the state of the function shows, if it has one.
    pub fn check_func(&mut self, body: &Body, report: &mut Report)
        requires
            old(self).sm.wf(),
            report_wf(*old(report)),
        ensures
            final(self).sm.wf(),
            final(self).sm.stack() == old(self).sm.stack(),
            final(self).sm.func_states() == old(self).sm.func_states(),
            final(self).tcx() == old(self).tcx(),
            final(self).visited() == old(self).visited(),
            final(self).sm.states() == old(self).sm.states(),
            report_grows(*old(report), *final(report)),
            !old(self).sm.func_states().contains_key(body.def_id) ==> *final(self) == *old(self)
                && *final(report) == *old(report),
            old(self).sm.func_states().contains_key(body.def_id) ==> T::spec_report_func(
                *body,
                old(self).tcx(),
                old(self).sm.func_states()[body.def_id],
                old(self).sm.func_states(),
                old(self).sm.stack(),
                old(self).sm.flags(),
                *old(report),
                *final(report),
            ),
            check_walk::<T>(old(self).tcx(), *body, old(self).walk_state(*old(report)), final(self).walk_state(*final(report))),
    {
        let st = match self.sm.get_func_state(body.def_id) {
            Some(st) => Some(st.dup()),
            None => None,
        };
        match st {
            Some(st) => {
                let tcx: &'a Tcx = self.tcx;
                T::report_func(body, tcx, st, &mut self.sm, report);
            },
            None => {},
        }
    }

    /// Walks a function: its statements and terminators, block by block in
    /// reverse postorder, entering the functions it calls. A function that
    /// is already being walked (a recursive call) is skipped. The walk ends
    /// as `walk_func` says.
    pub fn process_func(&mut self, body: &Body, report: &mut Report)
        requires
            program_calls_fit(old(self).tcx()),
            calls_fit(old(self).tcx(), *body),
            stack_visited(old(self).sm.stack(), old(self).visited()),
            old(self).visited().contains(body.def_id),
            old(self).sm.wf(),
            report_wf(*old(report)),
        ensures
            final(self).sm.wf(),
            final(self).sm.stack() == old(self).sm.stack(),
            final(self).tcx() == old(self).tcx(),
            old(self).visited().subset_of(final(self).visited()),
            func_states_kept(old(self).visited(), old(self).sm.func_states(), final(self).sm.func_states()),
            report_grows(*old(report), *final(report)),
            states_kept(old(self).sm.states(), final(self).sm.states()),
            !old(self).sm.stack().contains(body.def_id) ==> forall|i: int|
                0 <= i < body.rpo@.len() && body.rpo@[i] < body.basic_blocks@.len() ==> #[trigger] block_kept(
                    final(self).sm.states(),
                    body.def_id,
                    old(self).tcx(),
                    *body,
                    body.rpo@[i],
                ),
            old(self).sm.stack().contains(body.def_id) ==> {
                &&& final(self).sm.states() == old(self).sm.states()
                &&& final(self).sm.func_states() == old(self).sm.func_states()
                &&& final(self).sm.flags() == old(self).sm.flags()
                &&& *final(report) == *old(report)
            },
            walk_func::<T>(
                old(self).tcx(),
                *body,
                (0x1_0000_0000 - old(self).sm.stack().len()) as nat,
                old(self).walk_state(*old(report)),
                final(self).walk_state(*final(report)),
            ),
        decreases 0x1_0000_0000 - old(self).sm.stack().len(), 0int,
    {
        let ghost w0 = self.walk_state(*report);
        let ghost room = (0x1_0000_0000 - old(self).sm.stack().len()) as nat;
        if !self.sm.enter_func(body.def_id) {
            return;
        }
        let ghost wp = self.walk_state(*report);
        proof {
            assert(wp == with_stack(w0, w0.sm.stack.push(body.def_id)));
        }
        proof {
            lemma_distinct_ids_bounded(self.sm.stack());
            assert forall|d: DefId| #[trigger] self.sm.stack().contains(d) implies self.visited().contains(d) by {
                if d != body.def_id {
                    let k = choose|k: int| 0 <= k < self.sm.stack().len() && self.sm.stack()[k] == d;
                    assert(k < old(self).sm.stack().len());
                    assert(old(self).sm.stack()[k] == d);
                    assert(old(self).sm.stack().contains(d));
                }
            }
        }
        let tcx: &'a Tcx = self.tcx;
        let _ddg = crate::dd::DataDepsGraph::new(body, tcx, crate::dd::assert_macro_filter());
        let mut i: usize = 0;
        while i < body.rpo.len()
            invariant
                self.sm.wf(),
                self.sm.stack() == old(self).sm.stack().push(body.def_id),
                self.sm.stack().len() <= 0x1_0000_0000,
                self.tcx() == old(self).tcx(),
                program_calls_fit(old(self).tcx()),
                calls_fit(old(self).tcx(), *body),
                stack_visited(self.sm.stack(), self.visited()),
                old(self).visited().subset_of(self.visited()),
                func_states_kept(old(self).visited(), old(self).sm.func_states(), self.sm.func_states()),
                report_grows(*old(report), *report),
                i <= body.rpo@.len(),
                states_kept(old(self).sm.states(), self.sm.states()),
                forall|i2: int|
                    0 <= i2 < i && body.rpo@[i2] < body.basic_blocks@.len() ==> #[trigger] block_kept(
                        self.sm.states(),
                        body.def_id,
                        old(self).tcx(),
                        *body,
                        body.rpo@[i2],
                    ),
                room == 0x1_0000_0000 - old(self).sm.stack().len(),
                blocks_walk::<T>(old(self).tcx(), *body, room, i as int, wp, self.walk_state(*report)),
            decreases body.rpo@.len() - i,
        {
            let b = body.rpo[i];
            let ghost s_start = self.sm.states();
            let ghost wi = self.walk_state(*report);
            if b < body.basic_blocks.len() {
                let bb_data = &body.basic_blocks[b];
                let mut j: usize = 0;
                while j < bb_data.statements.len()
                    invariant
                        self.sm.wf(),
                        self.sm.stack() == old(self).sm.stack().push(body.def_id),
                        self.sm.stack().len() <= 0x1_0000_0000,
                        self.tcx() == old(self).tcx(),
                        program_calls_fit(old(self).tcx()),
                        calls_fit(old(self).tcx(), *body),
                        stack_visited(self.sm.stack(), self.visited()),
                        b < body.basic_blocks@.len(),
                        old(self).visited().subset_of(self.visited()),
                        func_states_kept(old(self).visited(), old(self).sm.func_states(), self.sm.func_states()),
                        report_grows(*old(report), *report),
                        *bb_data == body.basic_blocks@[b as int],
                        j <= bb_data.statements@.len(),
                        states_kept(s_start, self.sm.states()),
                        forall|j2: int|
                            0 <= j2 < j ==> stmt_kept(
                                self.sm.states(),
                                body.def_id,
                                #[trigger] bb_data.statements@[j2],
                            ),
                        stmts_walk::<T>(old(self).tcx(), *body, bb_data.statements@, j as int, wi, self.walk_state(*report)),
                    decreases bb_data.statements@.len() - j,
                {
                    let ghost s_prev = self.sm.states();
                    let ghost wj = self.walk_state(*report);
                    self.process_stmt(&bb_data.statements[j], body, report);
                    proof {
                        lemma_stmts_walk_step::<T>(old(self).tcx(), *body, bb_data.statements@, j as int, wi, wj, self.walk_state(*report));
                    }
                    proof {
                        assert forall|j2: int| 0 <= j2 < j + 1 implies stmt_kept(
                            self.sm.states(),
                            body.def_id,
                            #[trigger] bb_data.statements@[j2],
                        ) by {
                            if j2 < j {
                                lemma_stmt_kept(s_prev, self.sm.states(), body.def_id, bb_data.statements@[j2]);
                            }
                        }
                    }
                    j = j + 1;
                }
                let ghost s_stmts = self.sm.states();
                let ghost wm = self.walk_state(*report);
                match &bb_data.terminator {
                    Some(t) => {
                        self.process_terminator(t, body, report);
                    },
                    None => {},
                }
                proof {
                    assert(stmts_walk::<T>(old(self).tcx(), *body, bb_data.statements@, bb_data.statements@.len() as int, wi, wm));
                    assert(block_walk::<T>(old(self).tcx(), *body, room, b, wi, self.walk_state(*report)));
                }
                proof {
                    assert(block_kept(self.sm.states(), body.def_id, old(self).tcx(), *body, b)) by {
                        assert forall|j2: int| 0 <= j2 < bb_data.statements@.len() implies stmt_kept(
                            self.sm.states(),
                            body.def_id,
                            #[trigger] bb_data.statements@[j2],
                        ) by {
                            lemma_stmt_kept(s_stmts, self.sm.states(), body.def_id, bb_data.statements@[j2]);
                        }
                    }
                }
            }
            proof {
                assert forall|i2: int|
                    0 <= i2 < i + 1 && body.rpo@[i2] < body.basic_blocks@.len() implies #[trigger] block_kept(
                    self.sm.states(),
                    body.def_id,
                    old(self).tcx(),
                    *body,
                    body.rpo@[i2],
                ) by {
                    if i2 < i {
                        lemma_block_kept(s_start, self.sm.states(), body.def_id, old(self).tcx(), *body, body.rpo@[i2]);
                    }
                }
                assert(block_walk::<T>(old(self).tcx(), *body, room, b, wi, self.walk_state(*report)));
                lemma_blocks_walk_step::<T>(old(self).tcx(), *body, room, i as int, wp, wi, self.walk_state(*report));
            }
            i = i + 1;
        }
        let ghost wl = self.walk_state(*report);
        self.sm.exit_cur_func();
        proof {
            assert(self.sm.stack() =~= old(self).sm.stack());
            assert(self.walk_state(*report) == with_stack(wl, w0.sm.stack));
        }
    }

    /// An assignment gives its place the state of its right-hand side;
    /// other statements change nothing.
    fn process_stmt(&mut self, stmt: &Statement, body: &Body, report: &mut Report)
        requires
            old(self).sm.wf(),
            old(self).sm.stack().len() > 0,
            report_wf(*old(report)),
        ensures
            final(self).sm.wf(),
            final(self).sm.stack() == old(self).sm.stack(),
            final(self).sm.func_states() == old(self).sm.func_states(),
            final(self).tcx() == old(self).tcx(),
            final(self).visited() == old(self).visited(),
            report_grows(*old(report), *final(report)),
            states_kept(old(self).sm.states(), final(self).sm.states()),
            match stmt.kind {
                StatementKind::Assign(place, _) => {
                    &&& final(self).sm.states().contains_key(
                        FullPlaceView { func: old(self).sm.stack().last(), place: place@ },
                    )
                    &&& assigned_by(
                        old(self).sm.states(),
                        final(self).sm.states(),
                        final(self).sm.flags(),
                        old(self).tcx(),
                        FullPlaceView { func: old(self).sm.stack().last(), place: place@ },
                    )
                },
                _ => *final(self) == *old(self) && *final(report) == *old(report),
            },
            stmt_walk::<T>(old(self).tcx(), *body, *stmt, old(self).walk_state(*old(report)), final(self).walk_state(*final(report))),
    {
        match &stmt.kind {
            StatementKind::Assign(place, rvalue) => {
                let tcx: &'a Tcx = self.tcx;
                let state = T::compute_rvalue(rvalue, body, tcx, &mut self.sm, report, stmt.span);
                let ghost mid = self.sm;
                let ghost mid_report = *report;
                self.sm.update(place, state, body, tcx);
                proof {
                    let k = FullPlaceView { func: old(self).sm.stack().last(), place: place@ };
                    assert(changes_only(old(self).sm.states(), mid.states(), k.func));
                    assert(self.sm.states() == updated_states(mid.states(), *tcx, mid.flags(), k, state));
                    assert(T::rvalue_step(*rvalue, *body, *tcx, stmt.span, old(self).sm.sm_state(), *old(report), state, mid.sm_state(), mid_report));
                    assert(self.sm.sm_state() == sm_update(mid.sm_state(), *tcx, k, state));
                    assert(self.walk_state(*report) == (WalkState { sm: sm_update(mid.sm_state(), *tcx, k, state), report: mid_report, visited: old(self).visited() }));
                }
            },
            _ => {},
        }
    }

    /// A call whose target is known gives its destination the state that
    /// the analysis computes for it; then, unless the target is left
    /// unanalysed, was walked before (it is in the visited cache) or has no
    /// body, the arguments are bound to the parameters, the target is
    /// walked, its return value is bound to the destination and its state
    /// is reported.
    fn process_terminator(&mut self, terminator: &Terminator, body: &Body, report: &mut Report)
        requires
            program_calls_fit(old(self).tcx()),
            term_fits(old(self).tcx(), *body, Some(*terminator)),
            stack_visited(old(self).sm.stack(), old(self).visited()),
            old(self).sm.wf(),
            old(self).sm.stack().len() > 0,
            old(self).sm.stack().len() <= 0x1_0000_0000,
            report_wf(*old(report)),
        ensures
            final(self).sm.wf(),
            final(self).sm.stack() == old(self).sm.stack(),
            final(self).tcx() == old(self).tcx(),
            old(self).visited().subset_of(final(self).visited()),
            func_states_kept(old(self).visited(), old(self).sm.func_states(), final(self).sm.func_states()),
            report_grows(*old(report), *final(report)),
            match terminator.kind {
                TerminatorKind::Call { func, .. } => match call_target(old(self).tcx(), *body, func) {
                    Some(c) => {
                        &&& !is_skipped_call(old(self).tcx(), c) ==> final(self).visited().contains(c)
                        &&& (is_skipped_call(old(self).tcx(), c) || old(self).visited().contains(c))
                            ==> final(self).visited() == old(self).visited()
                            && final(self).sm.func_states() == old(self).sm.func_states()
                        &&& (is_skipped_call(old(self).tcx(), c) || old(self).visited().contains(c) || body_of(
                            old(self).tcx(),
                            c,
                        ) is None) ==> changes_only(old(self).sm.states(), final(self).sm.states(), old(self).sm.stack().last())
                        &&& (!is_skipped_call(old(self).tcx(), c) && !old(self).visited().contains(c) && body_of(
                            old(self).tcx(),
                            c,
                        ) is Some) ==> walked_callee::<T>(
                            old(self).tcx(),
                            c,
                            old(self).sm.func_states(),
                            final(self).sm.states(),
                            final(self).sm.func_states(),
                        )
                    },
                    None => true,
                },
                _ => true,
            },
            !(terminator.kind is Call) || call_target(old(self).tcx(), *body, terminator.kind->func) is None
                ==> *final(self) == *old(self) && *final(report) == *old(report),
            states_kept(old(self).sm.states(), final(self).sm.states()),
            match terminator.kind {
                TerminatorKind::Call { func, destination, .. } => match (
                    call_target(old(self).tcx(), *body, func),
                    destination,
                ) {
                    (Some(_), Some(dest)) => final(self).sm.states().contains_key(
                        FullPlaceView { func: old(self).sm.stack().last(), place: dest.0@ },
                    ),
                    _ => true,
                },
                _ => true,
            },
            term_walk::<T>(
                old(self).tcx(),
                *body,
                *terminator,
                (0x1_0000_0001 - old(self).sm.stack().len()) as nat,
                old(self).walk_state(*old(report)),
                final(self).walk_state(*final(report)),
            ),
        decreases 0x1_0000_0000 - old(self).sm.stack().len(), 1int,
    {
        let tcx: &'a Tcx = self.tcx;
        let ghost w0 = self.walk_state(*report);
        let ghost room = (0x1_0000_0000 - old(self).sm.stack().len()) as nat;
        match &terminator.kind {
            TerminatorKind::Call { func, args, destination, .. } => {
                match self.resolve_call_target(func, body) {
                    Some(callee) => {
                        let st = T::compute_terminator(
                            terminator,
                            body,
                            tcx,
                            &mut self.sm,
                            report,
                            terminator.span,
                        );
                        let ghost s1 = self.sm.sm_state();
                        let ghost rep1 = *report;
                        match destination {
                            Some(dest) => {
                                self.sm.update(&dest.0, st, body, tcx);
                            },
                            None => {},
                        }
                        let ghost w2 = self.walk_state(*report);
                        proof {
                            assert(T::terminator_step(*terminator, *body, *tcx, terminator.span, w0.sm, w0.report, st, s1, rep1));
                            assert(w2 == (WalkState { sm: dest_update(s1, *tcx, w0.sm.stack.last(), *destination, st), report: rep1, visited: w0.visited }));
                        }
                        if self.process_special_calls(callee) {
                            return;
                        }
                        if !self.visited.insert(callee) {
                            proof {
                                assert(self.visited() =~= w2.visited);
                            }
                            return;
                        }
                        let ghost w3 = self.walk_state(*report);
                        proof {
                            assert(w3 == (WalkState { visited: w2.visited.insert(callee), ..w2 }));
                        }
                        match tcx.optimized_mir(callee) {
                            Some(callee_body) => {
                                let ghost g0 = self.sm.func_states();
                                let ghost f0 = self.sm.flags();
                                proof {
                                    assert(body_of(*tcx, callee) == Some(*callee_body));
                                    assert(callee_body.def_id == callee);
                                    if self.sm.stack().contains(callee) {
                                        assert(old(self).sm.stack().contains(callee));
                                        assert(old(self).visited().contains(callee));
                                    }
                                }
                                match T::compute_func(callee_body, tcx, &mut self.sm) {
                                    Some(func_t) => {
                                        self.sm.set_func_state(callee, func_t);
                                    },
                                    None => {},
                                }
                                let ghost w4 = self.walk_state(*report);
                                proof {
                                    assert(w4 == func_entered::<T>(*tcx, callee, *callee_body, w3));
                                }
                                self.process_arg_binding(args, body, callee_body, terminator.span, report);
                                let ghost w5 = self.walk_state(*report);
                                let ghost g1 = self.sm.func_states();
                                let ghost v1 = self.visited();
                                self.process_func(callee_body, report);
                                let ghost w6 = self.walk_state(*report);
                                let ghost s_pf = self.sm.states();
                                self.process_ret_binding(destination, body, callee_body);
                                let ghost w7 = self.walk_state(*report);
                                proof {
                                    assert(w7 == ret_walk::<T>(*tcx, *body, *callee_body, *destination, w6));
                                }
                                self.check_func(callee_body, report);
                                proof {
                                    assert(args_walk::<T>(*tcx, *body, *callee_body, args@, terminator.span, func_entered::<T>(*tcx, callee, *callee_body, w3), w5));
                                    assert(walk_func::<T>(*tcx, *callee_body, room, w5, w6));
                                    assert(check_walk::<T>(*tcx, *callee_body, ret_walk::<T>(*tcx, *body, *callee_body, *destination, w6), self.walk_state(*report)));
                                    assert(call_walk::<T>(*tcx, *body, callee, args@, *destination, terminator.span, room, w2, self.walk_state(*report)));
                                }
                                proof {
                                    assert forall|i: int|
                                        0 <= i < callee_body.rpo@.len() && callee_body.rpo@[i] < callee_body.basic_blocks@.len()
                                            implies #[trigger] block_kept(
                                        self.sm.states(),
                                        callee,
                                        *tcx,
                                        *callee_body,
                                        callee_body.rpo@[i],
                                    ) by {
                                        lemma_block_kept(s_pf, self.sm.states(), callee, *tcx, *callee_body, callee_body.rpo@[i]);
                                    }
                                    assert(v1.contains(callee));
                                    assert(match T::spec_compute_func(*callee_body, *tcx, f0) {
                                        Some(t) => self.sm.func_states().contains_key(callee) && self.sm.func_states()[callee] == t,
                                        None => self.sm.func_states().contains_key(callee) == old(self).sm.func_states().contains_key(callee) && (
                                        old(self).sm.func_states().contains_key(callee) ==> self.sm.func_states()[callee] == old(self).sm.func_states()[callee]),
                                    });
                                    assert forall|d: DefId| #[trigger] old(self).visited().contains(d) implies g0.contains_key(d)
                                        == self.sm.func_states().contains_key(d) && (g0.contains_key(d)
                                        ==> self.sm.func_states()[d] == g0[d]) by {
                                        assert(d != callee);
                                        assert(v1.contains(d));
                                    }
                                }
                            },
                            None => {},
                        }
                    },
                    None => {},
                }
            },
            _ => {},
        }
    }

    /// The state of the callee's return value, if it has one, is merged
    /// into the destination of the call.
    fn process_ret_binding(&mut self, destination: &Option<(Place, usize)>, body: &Body, callee_body: &Body)
        requires
            old(self).sm.wf(),
        ensures
            final(self).sm.wf(),
            final(self).sm.stack() == old(self).sm.stack(),
            final(self).sm.func_states() == old(self).sm.func_states(),
            final(self).tcx() == old(self).tcx(),
            final(self).visited() == old(self).visited(),
            states_kept(old(self).sm.states(), final(self).sm.states()),
            ({
                let ret = FullPlaceView { func: callee_body.def_id, place: return_place() };
                match destination {
                    Some(dest) => if old(self).sm.states().contains_key(ret) {
                        let k = FullPlaceView { func: body.def_id, place: dest.0@ };
                        let t = old(self).sm.states()[ret];
                        &&& final(self).sm.states() == updated_states(old(self).sm.states(), old(self).tcx(), old(self).sm.flags(), k, t)
                        &&& final(self).sm.flags() == updated_flags(old(self).sm.states(), old(self).sm.flags(), k, t)
                    } else {
                        *final(self) == *old(self)
                    },
                    None => *final(self) == *old(self),
                }
            }),
    {
        let ret = FullPlaceRef::new(callee_body.def_id, Place::from_local(0));
        let st = match self.sm.get_state(&ret) {
            Some(s) => Some(s.dup()),
            None => None,
        };
        match st {
            Some(st) => match destination {
                Some(dest) => {
                    let tcx: &'a Tcx = self.tcx;
                    let full_dest = FullPlaceRef::new(body.def_id, dest.0.copy_place());
                    self.sm.update_full(full_dest, st, callee_body, tcx);
                },
                None => {},
            },
            None => {},
        }
    }

    /// Binds the arguments of a call to the callee's parameters: each
    /// argument's state is merged into the parameter's. A closure takes the
    /// closure itself as first parameter and the fields of its last
    /// argument, a tuple, as the following ones; a closure call whose
    /// arguments do not have that shape binds only the first parameter. A
    /// call of any other function passes one argument per parameter.
    fn process_arg_binding(
        &mut self,
        args: &Vec<Operand>,
        body: &Body,
        callee_body: &Body,
        span: u32,
        report: &mut Report,
    )
        requires
            old(self).sm.wf(),
            old(self).sm.stack().len() > 0,
            report_wf(*old(report)),
            !callee_body.is_closure ==> args@.len() == callee_body.arg_count,
        ensures
            final(self).sm.wf(),
            final(self).sm.stack() == old(self).sm.stack(),
            final(self).sm.func_states() == old(self).sm.func_states(),
            final(self).tcx() == old(self).tcx(),
            final(self).visited() == old(self).visited(),
            report_grows(*old(report), *final(report)),
            states_kept(old(self).sm.states(), final(self).sm.states()),
            !callee_body.is_closure ==> if args@.len() < 0xFFFF_FFFF {
                &&& forall|k: int|
                    1 <= k <= args@.len() ==> #[trigger] final(self).sm.states().contains_key(
                        FullPlaceView { func: callee_body.def_id, place: param_place(k) },
                    )
                &&& callee_body.def_id != old(self).sm.stack().last() ==> forall|k: int|
                    1 <= k <= args@.len() ==> #[trigger] merged_into(
                        old(self).sm.states(),
                        final(self).sm.states(),
                        old(self).tcx(),
                        FullPlaceView { func: callee_body.def_id, place: param_place(k) },
                    )
            } else {
                *final(self) == *old(self) && *final(report) == *old(report)
            },
            callee_body.is_closure ==> if args@.len() == 0 {
                *final(self) == *old(self) && *final(report) == *old(report)
            } else {
                final(self).sm.states().contains_key(
                    FullPlaceView { func: callee_body.def_id, place: param_place(1) },
                )
            },
            args_walk::<T>(
                old(self).tcx(),
                *body,
                *callee_body,
                args@,
                span,
                old(self).walk_state(*old(report)),
                final(self).walk_state(*final(report)),
            ),
    {
        let tcx: &'a Tcx = self.tcx;
        let ghost w0 = self.walk_state(*report);
        if callee_body.is_closure {
            if args.len() == 0 {
                return;
            }
            let st = T::compute_operand(&args[0], body, tcx, &mut self.sm, report, span);
            let ghost s1 = self.sm.sm_state();
            let ghost rep1 = *report;
            self.sm.update_full(
                FullPlaceRef::new(callee_body.def_id, Place::from_local(1)),
                st,
                callee_body,
                tcx,
            );
            let ghost w1 = self.walk_state(*report);
            proof {
                let key1 = FullPlaceView { func: callee_body.def_id, place: param_place(1) };
                assert(T::operand_step(args@[0], *body, *tcx, span, w0.sm, w0.report, st, s1, rep1));
                assert(w1 == (WalkState { sm: sm_update(s1, *tcx, key1, st), report: rep1, visited: w0.visited }));
                assert(operand_bind(*tcx, *body, args@[0], span, key1, w0, w1));
            }
            let closure_arg = &args[args.len() - 1];
            let rest = args.len() - 1;
            let closure_place = match closure_arg {
                Operand::Copy(p) | Operand::Move(p) => p,
                Operand::Constant(_) => {
                    return;
                },
            };
            let field_tys: Vec<u32> = match crate::mir::place_ty_exec(tcx, body, closure_place) {
                Some(t) => match tcx.ty(t) {
                    Some(d) => match &d.kind {
                        TyKind::Tuple(fs) => fs.clone(),
                        _ => {
                            return;
                        },
                    },
                    None => {
                        return;
                    },
                },
                None => {
                    return;
                },
            };
            if callee_body.arg_count < rest {
                return;
            }
            let count = callee_body.arg_count - rest;
            if count > field_tys.len() || count >= 0xFFFF_FFFF {
                return;
            }
            let mut k: usize = 0;
            while k < count
                invariant
                    self.sm.wf(),
                    self.sm.stack() == old(self).sm.stack(),
                    self.sm.func_states() == old(self).sm.func_states(),
                    self.tcx() == old(self).tcx(),
                    self.visited() == old(self).visited(),
                    report_grows(*old(report), *report),
                    old(self).sm.stack().len() > 0,
                    count <= field_tys@.len(),
                    count < 0xFFFF_FFFF,
                    states_kept(old(self).sm.states(), self.sm.states()),
                    self.sm.states().contains_key(
                        FullPlaceView { func: callee_body.def_id, place: param_place(1) },
                    ),
                    k <= count,
                    *tcx == old(self).tcx(),
                    fields_walk::<T>(
                        *tcx,
                        *body,
                        callee_body.def_id,
                        closure_place.local,
                        field_tys@,
                        span,
                        k as int,
                        w1,
                        self.walk_state(*report),
                    ),
                decreases count - k,
            {
                let ghost wp = self.walk_state(*report);
                let mut projection: Vec<ProjElem> = Vec::new();
                projection.push(ProjElem::Field { field: k as u32, ty: field_tys[k] });
                let arg = Place { local: closure_place.local, projection };
                let st = T::compute_place(&arg, body, tcx, &mut self.sm, report, Some(span));
                let ghost s1 = self.sm.sm_state();
                let ghost rep1 = *report;
                self.sm.update_full(
                    FullPlaceRef::new(callee_body.def_id, Place::from_local((k + 1) as u32)),
                    st,
                    callee_body,
                    tcx,
                );
                proof {
                    let keyk = FullPlaceView { func: callee_body.def_id, place: param_place(k + 1) };
                    let fp = field_place(closure_place.local, k as int, field_tys@[k as int]);
                    assert(arg@.projection =~= fp.projection);
                    assert(arg@ == fp);
                    assert(T::place_step(fp, *body, *tcx, Some(span), wp.sm, wp.report, st, s1, rep1));
                    assert(self.walk_state(*report) == (WalkState { sm: sm_update(s1, *tcx, keyk, st), report: rep1, visited: wp.visited }));
                    assert(place_bind(*tcx, *body, fp, span, keyk, wp, self.walk_state(*report)));
                    assert(fields_walk::<T>(*tcx, *body, callee_body.def_id, closure_place.local, field_tys@, span, k as int, w1, wp));
                    lemma_fields_walk_step::<T>(*tcx, *body, callee_body.def_id, closure_place.local, field_tys@, span, k as int, w1, wp, self.walk_state(*report));
                }
                k = k + 1;
            }
        } else {
            if args.len() >= 0xFFFF_FFFF {
                return;
            }
            let mut k: usize = 0;
            while k < args.len()
                invariant
                    self.sm.wf(),
                    self.sm.stack() == old(self).sm.stack(),
                    self.sm.func_states() == old(self).sm.func_states(),
                    self.tcx() == old(self).tcx(),
                    self.visited() == old(self).visited(),
                    report_grows(*old(report), *report),
                    old(self).sm.stack().len() > 0,
                    args@.len() < 0xFFFF_FFFF,
                    k <= args@.len(),
                    *tcx == old(self).tcx(),
                    states_kept(old(self).sm.states(), self.sm.states()),
                    forall|j: int|
                        1 <= j <= k ==> #[trigger] self.sm.states().contains_key(
                            FullPlaceView { func: callee_body.def_id, place: param_place(j) },
                        ),
                    callee_body.def_id != old(self).sm.stack().last() ==> forall|j: int|
                        1 <= j <= k ==> #[trigger] merged_into(
                            old(self).sm.states(),
                            self.sm.states(),
                            old(self).tcx(),
                            FullPlaceView { func: callee_body.def_id, place: param_place(j) },
                        ),
                    callee_body.def_id != old(self).sm.stack().last() ==> forall|j: int|
                        k < j <= args@.len() ==> #[trigger] untouched(
                            old(self).sm.states(),
                            self.sm.states(),
                            FullPlaceView { func: callee_body.def_id, place: param_place(j) },
                        ),
                    ops_walk::<T>(*tcx, *body, callee_body.def_id, args@, span, k as int, w0, self.walk_state(*report)),
                decreases args@.len() - k,
            {
                let ghost wp = self.walk_state(*report);
                let ghost s0 = self.sm.states();
                let st = T::compute_operand(&args[k], body, tcx, &mut self.sm, report, span);
                let ghost s1 = self.sm.states();
                let ghost f1 = self.sm.flags();
                let ghost ss1 = self.sm.sm_state();
                let ghost rep1 = *report;
                let ghost key = FullPlaceView { func: callee_body.def_id, place: param_place(k + 1) };
                self.sm.update_full(
                    FullPlaceRef::new(callee_body.def_id, Place::from_local((k + 1) as u32)),
                    st,
                    callee_body,
                    tcx,
                );
                proof {
                    if callee_body.def_id != old(self).sm.stack().last() {
                        assert(*tcx == old(self).tcx());
                        assert(self.sm.states() == updated_states(s1, *tcx, f1, key, st));
                        assert(untouched(old(self).sm.states(), s0, key));
                        assert(s1.contains_key(key) == s0.contains_key(key));
                        assert(self.sm.states()[key] == merged_value(old(self).sm.states(), *tcx, key, st, f1));
                        assert forall|j: int| 1 <= j <= k + 1 implies #[trigger] merged_into(
                            old(self).sm.states(),
                            self.sm.states(),
                            old(self).tcx(),
                            FullPlaceView { func: callee_body.def_id, place: param_place(j) },
                        ) by {
                            let kj = FullPlaceView { func: callee_body.def_id, place: param_place(j) };
                            if j <= k {
                                assert(kj != key);
                                assert(merged_into(old(self).sm.states(), s0, old(self).tcx(), kj));
                                assert(s0.contains_key(kj));
                                assert(s1.contains_key(kj) == s0.contains_key(kj));
                                assert(s1[kj] == s0[kj]);
                                lemma_merged_kept(old(self).sm.states(), s0, self.sm.states(), *tcx, kj);
                            } else {
                                assert(kj == key);
                                assert(self.sm.states()[kj] == merged_value(old(self).sm.states(), *tcx, kj, st, f1));
                            }
                        }
                        assert forall|j: int| k + 1 < j <= args@.len() implies #[trigger] untouched(
                            old(self).sm.states(),
                            self.sm.states(),
                            FullPlaceView { func: callee_body.def_id, place: param_place(j) },
                        ) by {
                            let kj = FullPlaceView { func: callee_body.def_id, place: param_place(j) };
                            assert(kj != key);
                            assert(untouched(old(self).sm.states(), s0, kj));
                            assert(s1.contains_key(kj) == s0.contains_key(kj));
                            if s0.contains_key(kj) {
                                assert(s1[kj] == s0[kj]);
                            }
                        }
                    }
                    let keyk = FullPlaceView { func: callee_body.def_id, place: param_place(k + 1) };
                    assert(T::operand_step(args@[k as int], *body, *tcx, span, wp.sm, wp.report, st, ss1, rep1));
                    assert(self.walk_state(*report) == (WalkState { sm: sm_update(ss1, *tcx, keyk, st), report: rep1, visited: wp.visited }));
                    assert(operand_bind(*tcx, *body, args@[k as int], span, keyk, wp, self.walk_state(*report)));
                    assert(ops_walk::<T>(*tcx, *body, callee_body.def_id, args@, span, k as int, w0, wp));
                    lemma_ops_walk_step::<T>(*tcx, *body, callee_body.def_id, args@, span, k as int, w0, wp, self.walk_state(*report));
                }
                k = k + 1;
            }
        }
    }
}

/// Updating the state of a place gives it a state: the new state itself
/// when it had none, else the merge of its state with the new one; every
/// other place keeps its state.
pub proof fn law_update_then_get<T: StateTransitor>(
    states: Map<FullPlaceView, T>,
    tcx: Tcx,
    flags: Seq<bool>,
    k: FullPlaceView,
    t: T,
    other: FullPlaceView,
)
    requires
        other != k,
    ensures
        updated_states(states, tcx, flags, k, t).contains_key(k),
        !states.contains_key(k) ==> updated_states(states, tcx, flags, k, t)[k] == t,
        states.contains_key(k) ==> updated_states(states, tcx, flags, k, t)[k] == states[k].spec_merge(t, tcx, flags),
        updated_states(states, tcx, flags, k, t).contains_key(other) == states.contains_key(other),
        states.contains_key(other) ==> updated_states(states, tcx, flags, k, t)[other] == states[other],
{
}

/// Entering a function that is not being analysed and leaving it again
/// restores the stack of functions.
pub proof fn law_enter_exit_restores(stack: Seq<DefId>, f: DefId)
    requires
        !stack.contains(f),
    ensures
        stack.push(f).drop_last() == stack,
        stack.push(f).last() == f,
{
    assert(stack.push(f).drop_last() =~= stack);
}

} // verus!
