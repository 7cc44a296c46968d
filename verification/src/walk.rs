//! The whole-program walk as a relation between values: what the
//! traverser's state machine, report and visited cache are after walking a
//! statement, a block, a function, or the program from its entry point.
//! Each step of an analysis is the relation that its trait methods state.

use vstd::prelude::*;
use crate::mir::{
    body_of, place_ty, ty_of, Body, DefId, Operand, Place, PlaceView, ProjElem, Statement, StatementKind,
    Terminator, TerminatorKind, Tcx, TyKind,
};
use crate::reporter::Report;
use crate::wpa::{
    call_target, entry_of, is_skipped_call, param_place, return_place, updated_flags, updated_states,
    FullPlaceView, SmState, StateTransitor,
};

verus! {

/// What the walk holds: the state machine, the report and the functions it
/// has entered.
pub struct WalkState<T> {
    pub sm: SmState<T>,
    pub report: Report,
    pub visited: Set<DefId>,
}

/// `b` is `a` with the record of seen call stacks cleared.
pub open spec fn filter_cleared(a: Report, b: Report) -> bool {
    &&& b == (Report { filtered: b.filtered, ..a })
    &&& b.filtered@.len() == 0
}

/// A walk that has not started: no states, no stack, no flags, nothing
/// visited.
pub open spec fn fresh_walk<T>(report: Report) -> WalkState<T> {
    WalkState {
        sm: SmState {
            states: Map::empty(),
            func_states: Map::empty(),
            stack: Seq::empty(),
            flags: Seq::empty(),
        },
        report,
        visited: Set::empty(),
    }
}

/// The state machine after updating place `k` with state `t` (see
/// `update_full`).
pub open spec fn sm_update<T: StateTransitor>(s: SmState<T>, tcx: Tcx, k: FullPlaceView, t: T) -> SmState<T> {
    SmState {
        states: updated_states(s.states, tcx, s.flags, k, t),
        flags: updated_flags(s.states, s.flags, k, t),
        ..s
    }
}

/// A computation step keeps the stack and the function states.
pub open spec fn frame_kept<T>(a: SmState<T>, s: SmState<T>) -> bool {
    s.stack == a.stack && s.func_states == a.func_states
}

/// The state of operand `op` is computed and merged into place `k`.
pub open spec fn operand_bind<T: StateTransitor>(
    tcx: Tcx,
    body: Body,
    op: Operand,
    span: u32,
    k: FullPlaceView,
    a: WalkState<T>,
    b: WalkState<T>,
) -> bool {
    exists|r: T, s: SmState<T>, rep: Report|
        #[trigger] T::operand_step(op, body, tcx, span, a.sm, a.report, r, s, rep) && frame_kept(a.sm, s)
            && b == (WalkState { sm: sm_update(s, tcx, k, r), report: rep, visited: a.visited })
}

/// The state of place `p` is computed and merged into place `k`.
pub open spec fn place_bind<T: StateTransitor>(
    tcx: Tcx,
    body: Body,
    p: PlaceView,
    span: u32,
    k: FullPlaceView,
    a: WalkState<T>,
    b: WalkState<T>,
) -> bool {
    exists|r: T, s: SmState<T>, rep: Report|
        #[trigger] T::place_step(p, body, tcx, Some(span), a.sm, a.report, r, s, rep) && frame_kept(a.sm, s)
            && b == (WalkState { sm: sm_update(s, tcx, k, r), report: rep, visited: a.visited })
}

/// A statement: an assignment merges the state of its right-hand side into
/// its place (of the current function); any other statement does nothing.
pub open spec fn stmt_walk<T: StateTransitor>(tcx: Tcx, body: Body, stmt: Statement, a: WalkState<T>, b: WalkState<T>) -> bool {
    match stmt.kind {
        StatementKind::Assign(place, rv) => exists|r: T, s: SmState<T>, rep: Report|
            #[trigger] T::rvalue_step(rv, body, tcx, stmt.span, a.sm, a.report, r, s, rep) && frame_kept(a.sm, s)
                && b == (WalkState {
                sm: sm_update(s, tcx, FullPlaceView { func: a.sm.stack.last(), place: place@ }, r),
                report: rep,
                visited: a.visited,
            }),
        _ => b == a,
    }
}

/// A walk state, as a point of a walk (a name to find it by).
pub open spec fn walked<T>(m: WalkState<T>) -> bool {
    true
}

/// The index before `k`.
pub open spec fn prev(k: int) -> int {
    k - 1
}

/// The first `j` statements of `stmts`, in order.
pub open spec fn stmts_walk<T: StateTransitor>(
    tcx: Tcx,
    body: Body,
    stmts: Seq<Statement>,
    j: int,
    a: WalkState<T>,
    b: WalkState<T>,
) -> bool
    decreases j,
{
    if j <= 0 {
        b == a
    } else {
        exists|m: WalkState<T>| stmts_walk(tcx, body, stmts, prev(j), a, m) && #[trigger] stmt_walk(tcx, body, stmts[prev(j)], m, b)
    }
}

/// The first `k` arguments, each merged into the parameter of its rank.
pub open spec fn ops_walk<T: StateTransitor>(
    tcx: Tcx,
    body: Body,
    callee: DefId,
    args: Seq<Operand>,
    span: u32,
    k: int,
    a: WalkState<T>,
    b: WalkState<T>,
) -> bool
    decreases k,
{
    if k <= 0 {
        b == a
    } else {
        exists|m: WalkState<T>| ops_walk(tcx, body, callee, args, span, prev(k), a, m) && #[trigger] operand_bind(
            tcx,
            body,
            args[prev(k)],
            span,
            FullPlaceView { func: callee, place: param_place(k) },
            m,
            b,
        )
    }
}

/// The place of field `f` (of type `ty`) of local `local`.
pub open spec fn field_place(local: u32, f: int, ty: u32) -> PlaceView {
    PlaceView { local, projection: seq![ProjElem::Field { field: f as u32, ty }] }
}

/// The first `k` fields of the tuple in local `local` (field types
/// `tys`), each merged into the parameter of its rank.
pub open spec fn fields_walk<T: StateTransitor>(
    tcx: Tcx,
    body: Body,
    callee: DefId,
    local: u32,
    tys: Seq<u32>,
    span: u32,
    k: int,
    a: WalkState<T>,
    b: WalkState<T>,
) -> bool
    decreases k,
{
    if k <= 0 {
        b == a
    } else {
        exists|m: WalkState<T>| fields_walk(tcx, body, callee, local, tys, span, prev(k), a, m) && #[trigger] place_bind(
            tcx,
            body,
            field_place(local, prev(k), tys[prev(k)]),
            span,
            FullPlaceView { func: callee, place: param_place(k) },
            m,
            b,
        )
    }
}

/// The place an operand reads, if it reads one.
pub open spec fn operand_place(op: Operand) -> Option<Place> {
    match op {
        Operand::Copy(p) => Some(p),
        Operand::Move(p) => Some(p),
        Operand::Constant(_) => None,
    }
}

/// For a call of a closure: the local holding the tuple of the remaining
/// arguments (the last argument), the types of its fields, and how many of
/// them are bound; none when the last argument is not a tuple in a place or
/// when the fields do not fit the parameters.
pub open spec fn closure_fields(tcx: Tcx, body: Body, callee_body: Body, args: Seq<Operand>) -> Option<(u32, Seq<u32>, int)> {
    let rest = args.len() - 1;
    match operand_place(args[args.len() - 1]) {
        Some(p) => match place_ty(tcx, body, p@) {
            Some(t) => match ty_of(tcx, t) {
                Some(d) => match d.kind {
                    TyKind::Tuple(fs) => if callee_body.arg_count < rest || callee_body.arg_count - rest > fs@.len()
                        || callee_body.arg_count - rest >= 0xFFFF_FFFF {
                        None
                    } else {
                        Some((p.local, fs@, callee_body.arg_count - rest))
                    },
                    _ => None,
                },
                None => None,
            },
            None => None,
        },
        None => None,
    }
}

/// Binding the arguments of a call to the callee's parameters (see
/// `process_arg_binding`).
pub open spec fn args_walk<T: StateTransitor>(
    tcx: Tcx,
    body: Body,
    callee_body: Body,
    args: Seq<Operand>,
    span: u32,
    a: WalkState<T>,
    b: WalkState<T>,
) -> bool {
    if callee_body.is_closure {
        if args.len() == 0 {
            b == a
        } else {
            exists|m: WalkState<T>|
                #[trigger] operand_bind(
                    tcx,
                    body,
                    args[0],
                    span,
                    FullPlaceView { func: callee_body.def_id, place: param_place(1) },
                    a,
                    m,
                ) && match closure_fields(tcx, body, callee_body, args) {
                    Some(c) => fields_walk(tcx, body, callee_body.def_id, c.0, c.1, span, c.2, m, b),
                    None => b == m,
                }
        }
    } else if args.len() >= 0xFFFF_FFFF {
        b == a
    } else {
        ops_walk(tcx, body, callee_body.def_id, args, span, args.len() as int, a, b)
    }
}

/// Binding the return value of the callee to the destination of the call.
pub open spec fn ret_walk<T: StateTransitor>(
    tcx: Tcx,
    body: Body,
    callee_body: Body,
    destination: Option<(Place, usize)>,
    a: WalkState<T>,
) -> WalkState<T> {
    let ret = FullPlaceView { func: callee_body.def_id, place: return_place() };
    match destination {
        Some(dest) => if a.sm.states.contains_key(ret) {
            WalkState {
                sm: sm_update(a.sm, tcx, FullPlaceView { func: body.def_id, place: dest.0@ }, a.sm.states[ret]),
                ..a
            }
        } else {
            a
        },
        None => a,
    }
}

/// Reporting what the state of the callee shows, if it has one.
pub open spec fn check_walk<T: StateTransitor>(tcx: Tcx, callee_body: Body, a: WalkState<T>, b: WalkState<T>) -> bool {
    if a.sm.func_states.contains_key(callee_body.def_id) {
        &&& b.sm == a.sm
        &&& b.visited == a.visited
        &&& T::spec_report_func(
            callee_body,
            tcx,
            a.sm.func_states[callee_body.def_id],
            a.sm.func_states,
            a.sm.stack,
            a.sm.flags,
            a.report,
            b.report,
        )
    } else {
        b == a
    }
}

/// Entering function `c` with body `cb`: it gets the initial state the
/// analysis gives it, if any, and the flags change as `compute_func` says.
pub open spec fn func_entered<T: StateTransitor>(tcx: Tcx, c: DefId, cb: Body, a: WalkState<T>) -> WalkState<T> {
    WalkState {
        sm: SmState {
            flags: T::spec_compute_func_flags(cb, tcx, a.sm.flags),
            func_states: match T::spec_compute_func(cb, tcx, a.sm.flags) {
                Some(t) => a.sm.func_states.insert(c, t),
                None => a.sm.func_states,
            },
            ..a.sm
        },
        ..a
    }
}

/// The destination of a call, if any, gets the state computed for the call.
pub open spec fn dest_update<T: StateTransitor>(
    s: SmState<T>,
    tcx: Tcx,
    cur: DefId,
    destination: Option<(Place, usize)>,
    r: T,
) -> SmState<T> {
    match destination {
        Some(dest) => sm_update(s, tcx, FullPlaceView { func: cur, place: dest.0@ }, r),
        None => s,
    }
}

/// The walk state `a` with its stack set to `stack`.
pub open spec fn with_stack<T>(a: WalkState<T>, stack: Seq<DefId>) -> WalkState<T> {
    WalkState { sm: SmState { stack, ..a.sm }, ..a }
}

/// Walking a function: nothing when it is already on the stack (a
/// recursive call); else it is pushed, the blocks are walked in reverse
/// postorder, and it is popped. `room` is how many more functions the
/// stack can take (the stack's ids are distinct `u32`s).
pub open spec fn walk_func<T: StateTransitor>(tcx: Tcx, body: Body, room: nat, a: WalkState<T>, b: WalkState<T>) -> bool
    decreases room, 4int, 0int,
{
    if a.sm.stack.contains(body.def_id) {
        b == a
    } else if room == 0 {
        false
    } else {
        exists|m: WalkState<T>|
            blocks_walk(
                tcx,
                body,
                room,
                body.rpo@.len() as int,
                with_stack(a, a.sm.stack.push(body.def_id)),
                m,
            ) && b == #[trigger] with_stack(m, a.sm.stack)
    }
}

/// The first `i` blocks of the reverse postorder.
pub open spec fn blocks_walk<T: StateTransitor>(tcx: Tcx, body: Body, room: nat, i: int, a: WalkState<T>, b: WalkState<T>) -> bool
    decreases room, 3int, i,
{
    if i <= 0 {
        b == a
    } else {
        exists|m: WalkState<T>| #[trigger] walked(m) && blocks_walk(tcx, body, room, prev(i), a, m) && block_walk(
            tcx,
            body,
            room,
            body.rpo@[prev(i)],
            m,
            b,
        )
    }
}

/// A block: its statements, then its terminator (nothing for a block that
/// the body does not hold).
pub open spec fn block_walk<T: StateTransitor>(tcx: Tcx, body: Body, room: nat, blk: usize, a: WalkState<T>, b: WalkState<T>) -> bool
    decreases room, 2int, 0int,
{
    if (blk as int) < body.basic_blocks@.len() {
        let bb = body.basic_blocks@[blk as int];
        exists|m: WalkState<T>|
            #[trigger] stmts_walk(tcx, body, bb.statements@, bb.statements@.len() as int, a, m) && match bb.terminator {
                Some(t) => term_walk(tcx, body, t, room, m, b),
                None => b == m,
            }
    } else {
        b == a
    }
}

/// A terminator: a call whose target is known gives its destination the
/// state computed for it, then the call is followed (see `call_walk`);
/// anything else does nothing.
pub open spec fn term_walk<T: StateTransitor>(tcx: Tcx, body: Body, t: Terminator, room: nat, a: WalkState<T>, b: WalkState<T>) -> bool
    decreases room, 1int, 0int,
{
    match t.kind {
        TerminatorKind::Call { func, args, destination, .. } => match call_target(tcx, body, func) {
            Some(c) => exists|r: T, s: SmState<T>, rep: Report|
                #[trigger] T::terminator_step(t, body, tcx, t.span, a.sm, a.report, r, s, rep) && frame_kept(a.sm, s)
                    && room > 0 && call_walk(
                    tcx,
                    body,
                    c,
                    args@,
                    destination,
                    t.span,
                    (room - 1) as nat,
                    WalkState { sm: dest_update(s, tcx, a.sm.stack.last(), destination, r), report: rep, visited: a.visited },
                    b,
                ),
            None => b == a,
        },
        _ => b == a,
    }
}

/// Following a call of `c`: nothing when it is left unanalysed or was
/// walked before; else it is marked visited and, when its body is
/// available, entered, its arguments bound, walked, its return value bound
/// and its state reported. `room` is the room of the callee's walk.
pub open spec fn call_walk<T: StateTransitor>(
    tcx: Tcx,
    body: Body,
    c: DefId,
    args: Seq<Operand>,
    destination: Option<(Place, usize)>,
    span: u32,
    room: nat,
    a: WalkState<T>,
    b: WalkState<T>,
) -> bool
    decreases room + 1, 0int, 0int,
{
    if is_skipped_call(tcx, c) || a.visited.contains(c) {
        b == a
    } else {
        let a1 = WalkState { visited: a.visited.insert(c), ..a };
        match body_of(tcx, c) {
            None => b == a1,
            Some(cb) => exists|m1: WalkState<T>, m2: WalkState<T>|
                #![trigger args_walk(tcx, body, cb, args, span, func_entered(tcx, c, cb, a1), m1), ret_walk(tcx, body, cb, destination, m2)]
                args_walk(tcx, body, cb, args, span, func_entered(tcx, c, cb, a1), m1) && walk_func(tcx, cb, room, m1, m2)
                    && check_walk(tcx, cb, ret_walk(tcx, body, cb, destination, m2), b),
        }
    }
}

/// The walk of the program from its entry point: the record of seen call
/// stacks is cleared; then, when the program has an entry point, it is
/// marked visited and, when its body is available, entered and walked.
pub open spec fn start_walk<T: StateTransitor>(tcx: Tcx, a: WalkState<T>, b: WalkState<T>) -> bool {
    exists|r0: Report|
        #[trigger] filter_cleared(a.report, r0) && match entry_of(tcx) {
            None => b == WalkState { report: r0, ..a },
            Some(e) => match body_of(tcx, e) {
                None => b == WalkState { report: r0, visited: a.visited.insert(e), ..a },
                Some(eb) => walk_func(
                    tcx,
                    eb,
                    (0x1_0000_0000 - a.sm.stack.len()) as nat,
                    func_entered(tcx, e, eb, WalkState { report: r0, visited: a.visited.insert(e), ..a }),
                    b,
                ),
            },
        }
}

/// One more argument extends the walk of the arguments.
pub proof fn lemma_ops_walk_step<T: StateTransitor>(
    tcx: Tcx,
    body: Body,
    callee: DefId,
    args: Seq<Operand>,
    span: u32,
    k: int,
    a: WalkState<T>,
    m: WalkState<T>,
    b: WalkState<T>,
)
    requires
        k >= 0,
        ops_walk(tcx, body, callee, args, span, k, a, m),
        operand_bind(tcx, body, args[k], span, FullPlaceView { func: callee, place: param_place(k + 1) }, m, b),
    ensures
        ops_walk(tcx, body, callee, args, span, k + 1, a, b),
{
    assert(ops_walk(tcx, body, callee, args, span, prev(k + 1), a, m));
}

/// One more field extends the walk of the fields.
pub proof fn lemma_fields_walk_step<T: StateTransitor>(
    tcx: Tcx,
    body: Body,
    callee: DefId,
    local: u32,
    tys: Seq<u32>,
    span: u32,
    k: int,
    a: WalkState<T>,
    m: WalkState<T>,
    b: WalkState<T>,
)
    requires
        k >= 0,
        fields_walk(tcx, body, callee, local, tys, span, k, a, m),
        place_bind(
            tcx,
            body,
            field_place(local, k, tys[k]),
            span,
            FullPlaceView { func: callee, place: param_place(k + 1) },
            m,
            b,
        ),
    ensures
        fields_walk(tcx, body, callee, local, tys, span, k + 1, a, b),
{
    assert(fields_walk(tcx, body, callee, local, tys, span, prev(k + 1), a, m));
}

/// One more statement extends the walk of the statements.
pub proof fn lemma_stmts_walk_step<T: StateTransitor>(
    tcx: Tcx,
    body: Body,
    stmts: Seq<Statement>,
    j: int,
    a: WalkState<T>,
    m: WalkState<T>,
    b: WalkState<T>,
)
    requires
        j >= 0,
        stmts_walk(tcx, body, stmts, j, a, m),
        stmt_walk(tcx, body, stmts[j], m, b),
    ensures
        stmts_walk(tcx, body, stmts, j + 1, a, b),
{
    assert(stmts_walk(tcx, body, stmts, prev(j + 1), a, m));
}

/// One more block extends the walk of the blocks.
pub proof fn lemma_blocks_walk_step<T: StateTransitor>(
    tcx: Tcx,
    body: Body,
    room: nat,
    i: int,
    a: WalkState<T>,
    m: WalkState<T>,
    b: WalkState<T>,
)
    requires
        i >= 0,
        blocks_walk(tcx, body, room, i, a, m),
        block_walk(tcx, body, room, body.rpo@[i], m, b),
    ensures
        blocks_walk(tcx, body, room, i + 1, a, b),
{
    assert(walked(m));
    assert(blocks_walk(tcx, body, room, prev(i + 1), a, m));
}

} // verus!

