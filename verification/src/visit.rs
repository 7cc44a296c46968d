//! A visitor that records where each place is defined, the conditions of
//! the switches, and what a callback picks out of the calls of a body; and
//! the search back along definitions for the variable or constant that a
//! place comes from.

use vstd::prelude::*;
use crate::collections::{
    locations_of, place_index_contents, place_locations_contents, PlaceIndex, PlaceLocations,
};
use crate::mir::{
    adt_of, def_path, peel_refs, symbol, ty_of, AdtDef, Body, Constant, DefId, Location, Operand,
    OperandView, Place, PlaceView, ProjElem, Rvalue, StatementKind, Tcx, TerminatorKind, TyKind,
};
use crate::strs::str_eq;

verus! {

/// The views of a sequence of values.
pub open spec fn views<D: View>(s: Seq<D>) -> Seq<D::V> {
    s.map_values(|d: D| d@)
}

/// What a callback picks out of the calls of a body.
pub trait CallFocus: Sized + View {
    /// What is picked out of one call.
    spec fn focus_of(tcx: Tcx, func: Operand, args: Seq<Operand>, dest: Option<(Place, usize)>) -> Seq<<Self as View>::V>;

    /// Appends what is picked out of one call.
    fn on_call(tcx: &Tcx, func: &Operand, args: &Vec<Operand>, dest: &Option<(Place, usize)>, focus: &mut Vec<Self>)
        ensures
            views(final(focus)@) == views(old(focus)@) + Self::focus_of(*tcx, *func, args@, *dest),
    ;
}

/// The definitions made by item `k` of block `b`: an assignment defines its
/// place; the terminator (item `statements.len()`), when it is a call with a
/// destination, defines the destination.
pub open spec fn item_defs(body: Body, b: int, k: int) -> Seq<(PlaceView, Location)> {
    let bb = body.basic_blocks@[b];
    let loc = Location { block: b as usize, statement_index: k as usize };
    if k < bb.statements@.len() {
        match bb.statements@[k].kind {
            StatementKind::Assign(p, _) => seq![(p@, loc)],
            _ => Seq::empty(),
        }
    } else {
        match bb.terminator {
            Some(t) => match t.kind {
                TerminatorKind::Call { destination: Some(d), .. } => seq![(d.0@, loc)],
                _ => Seq::empty(),
            },
            None => Seq::empty(),
        }
    }
}

/// The definitions made before item `k` of block `b`, in visiting order.
pub open spec fn defs_before(body: Body, b: int, k: int) -> Seq<(PlaceView, Location)>
    decreases b, k,
{
    if b <= 0 && k <= 0 {
        Seq::empty()
    } else if k <= 0 {
        defs_before(body, b - 1, body.basic_blocks@[b - 1].statements@.len() + 1int)
    } else {
        defs_before(body, b, k - 1) + item_defs(body, b, k - 1)
    }
}

/// The map after recording each definition.
pub open spec fn apply_defs(m: Map<PlaceView, Seq<Location>>, ev: Seq<(PlaceView, Location)>) -> Map<PlaceView, Seq<Location>>
    decreases ev.len(),
{
    if ev.len() == 0 {
        m
    } else {
        let m2 = apply_defs(m, ev.drop_last());
        let (p, l) = ev.last();
        m2.insert(p, locations_of(m2, p).push(l))
    }
}

/// The conditions of the switches that end the blocks before `b`.
pub open spec fn switches_before(body: Body, b: int) -> Seq<OperandView>
    decreases b,
{
    if b <= 0 {
        Seq::empty()
    } else {
        let rest = switches_before(body, b - 1);
        match body.basic_blocks@[b - 1].terminator {
            Some(t) => match t.kind {
                TerminatorKind::SwitchInt { discr } => rest.push(discr@),
                _ => rest,
            },
            None => rest,
        }
    }
}

/// What is picked out of the calls that end the blocks before `b`.
pub open spec fn focus_before<D: CallFocus>(tcx: Tcx, body: Body, b: int) -> Seq<<D as View>::V>
    decreases b,
{
    if b <= 0 {
        Seq::empty()
    } else {
        let rest = focus_before::<D>(tcx, body, b - 1);
        match body.basic_blocks@[b - 1].terminator {
            Some(t) => match t.kind {
                TerminatorKind::Call { func, args, destination, .. } => rest + D::focus_of(
                    tcx,
                    func,
                    args@,
                    destination,
                ),
                _ => rest,
            },
            None => rest,
        }
    }
}

proof fn lemma_apply_defs_push(m: Map<PlaceView, Seq<Location>>, ev: Seq<(PlaceView, Location)>, x: (PlaceView, Location))
    ensures
        apply_defs(m, ev.push(x)) == apply_defs(m, ev).insert(x.0, locations_of(apply_defs(m, ev), x.0).push(x.1)),
{
    assert(ev.push(x).drop_last() =~= ev);
}

/// A body visitor: where places are defined, the switch conditions, and,
/// when `f` holds, what `D` picks out of each call.
pub struct BodyVisitor<'a, D> {
    pub tcx: &'a Tcx,
    pub f: bool,
    pub defs: PlaceLocations,
    pub switchint: Vec<Operand>,
    pub focus: Vec<D>,
}

/// Where a value comes from: a field path of a user variable (the
/// variable's name and the names of the fields accessed), or a constant.
pub enum DefSource {
    Var { name: u32, fields: Vec<u32> },
    Const(Constant),
}

/// The view of a `DefSource`.
pub enum DefSourceView {
    Var { name: u32, fields: Seq<u32> },
    Const(Constant),
}

impl View for DefSource {
    type V = DefSourceView;

    open spec fn view(&self) -> DefSourceView {
        match self {
            DefSource::Var { name, fields } => DefSourceView::Var { name: *name, fields: fields@ },
            DefSource::Const(c) => DefSourceView::Const(*c),
        }
    }
}

/// Whether a variable name is one of the temporaries of `assert_eq!`.
pub open spec fn spec_is_from_assert_eq_macro(var: Seq<char>) -> bool {
    var == "left_val"@ || var == "right_val"@
}

/// Whether a variable name is one of the temporaries of `assert_eq!`,
/// `left_val` or `right_val`.
pub fn is_from_assert_eq_macro(var: &str) -> (r: bool)
    ensures
        r == spec_is_from_assert_eq_macro(var@),
{
    proof {
        reveal_strlit("left_val");
        reveal_strlit("right_val");
    }
    str_eq(var, "left_val") || str_eq(var, "right_val")
}

/// The names of the fields that the field projections access, in order,
/// each looked up among the fields of the type (none when an index is out
/// of range).
pub open spec fn all_fields(names: Seq<u32>, proj: Seq<ProjElem>) -> Option<Seq<u32>>
    decreases proj.len(),
{
    if proj.len() == 0 {
        Some(Seq::empty())
    } else {
        match all_fields(names, proj.drop_last()) {
            Some(rest) => match proj.last() {
                ProjElem::Field { field, .. } => if (field as int) < names.len() {
                    Some(rest.push(names[field as int]))
                } else {
                    None
                },
                _ => Some(rest),
            },
            None => None,
        }
    }
}

/// The names of the fields that the projections access.
pub fn get_all_fields(adt_def: &AdtDef, projections: &Vec<ProjElem>) -> (r: Option<Vec<u32>>)
    ensures
        match r {
            Some(v) => all_fields(adt_def.field_names@, projections@) == Some(v@),
            None => all_fields(adt_def.field_names@, projections@).is_none(),
        },
{
    let mut res: Vec<u32> = Vec::new();
    let mut i: usize = 0;
    while i < projections.len()
        invariant
            i <= projections@.len(),
            all_fields(adt_def.field_names@, projections@.subrange(0, i as int)) == Some(res@),
        decreases projections@.len() - i,
    {
        assert(projections@.subrange(0, i + 1).drop_last() =~= projections@.subrange(0, i as int));
        match projections[i] {
            ProjElem::Field { field, .. } => {
                if (field as usize) < adt_def.field_names.len() {
                    res.push(adt_def.field_names[field as usize]);
                } else {
                    proof {
                        lemma_all_fields_none(adt_def.field_names@, projections@, i as int + 1);
                    }
                    return None;
                }
            },
            _ => {},
        }
        i = i + 1;
    }
    assert(projections@.subrange(0, projections@.len() as int) =~= projections@);
    Some(res)
}

proof fn lemma_all_fields_none(names: Seq<u32>, proj: Seq<ProjElem>, n: int)
    requires
        0 <= n <= proj.len(),
        all_fields(names, proj.subrange(0, n)).is_none(),
    ensures
        all_fields(names, proj).is_none(),
    decreases proj.len() - n,
{
    if n < proj.len() {
        assert(proj.subrange(0, n + 1).drop_last() =~= proj.subrange(0, n));
        lemma_all_fields_none(names, proj, n + 1);
    } else {
        assert(proj.subrange(0, n) =~= proj);
    }
}

/// Whether local `l` is a variable that the user declared.
pub open spec fn is_user_var(body: Body, l: u32) -> bool {
    (l as int) < body.user_vars@.len() && body.user_vars@[l as int]
}

/// The algebraic data type of local `l`, references peeled.
pub open spec fn local_adt(tcx: Tcx, body: Body, l: u32) -> Option<DefId> {
    if (l as int) < body.local_decls@.len() {
        match ty_of(tcx, peel_refs(tcx, body.local_decls@[l as int])) {
            Some(d) => match d.kind {
                TyKind::Adt { did, .. } => Some(did),
                _ => None,
            },
            None => None,
        }
    } else {
        None
    }
}

/// The number of statements and terminators of a body (saturating).
pub open spec fn item_count(body: Body, n: int) -> nat
    decreases n,
{
    if n <= 0 {
        0
    } else {
        let c = item_count(body, n - 1) + body.basic_blocks@[n - 1].statements@.len() + 1;
        if c > usize::MAX { usize::MAX as nat } else { c }
    }
}

/// The result of following definitions back from place `p`, with `fuel`
/// steps left: a user variable of an algebraic data type (other than an
/// `assert_eq!` temporary) is the source, with the fields accessed;
/// otherwise the first definition of the place (or of its local) is
/// followed: a constant is the source, a use or reference is followed, and
/// so is the argument of a call of `Deref::deref`.
pub open spec fn backtrack_spec(
    tcx: Tcx,
    body: Body,
    defs: Map<PlaceView, Seq<Location>>,
    dbg: Map<PlaceView, usize>,
    p: PlaceView,
    fuel: nat,
) -> Option<DefSourceView>
    decreases fuel,
{
    if fuel == 0 {
        None
    } else {
        let base = PlaceView { local: p.local, projection: Seq::empty() };
        let var_source: Option<Option<DefSourceView>> = if is_user_var(body, p.local) {
            match local_adt(tcx, body, p.local) {
                Some(did) => if !dbg.contains_key(base) || dbg[base] as int >= body.var_debug_info@.len() {
                    Some(None)
                } else {
                    let name = body.var_debug_info@[dbg[base] as int].name;
                    if spec_is_from_assert_eq_macro(symbol(tcx, name)) {
                        None
                    } else {
                        match adt_of(tcx, did) {
                            Some(adt) => match all_fields(adt.field_names@, p.projection) {
                                Some(fs) => Some(Some(DefSourceView::Var { name, fields: fs })),
                                None => Some(None),
                            },
                            None => Some(None),
                        }
                    }
                },
                None => None,
            }
        } else {
            None
        };
        match var_source {
            Some(r) => r,
            None => {
                let key = if defs.contains_key(p) { p } else { base };
                if defs.contains_key(key) && defs[key].len() > 0 {
                    let loc = defs[key][0];
                    if (loc.block as int) < body.basic_blocks@.len() {
                        let bb = body.basic_blocks@[loc.block as int];
                        if (loc.statement_index as int) < bb.statements@.len() {
                            match bb.statements@[loc.statement_index as int].kind {
                                StatementKind::Assign(_, rv) => match rv {
                                    Rvalue::Use(Operand::Constant(c)) => Some(DefSourceView::Const(c)),
                                    Rvalue::Use(Operand::Copy(q)) => backtrack_spec(tcx, body, defs, dbg, q@, (fuel - 1) as nat),
                                    Rvalue::Use(Operand::Move(q)) => backtrack_spec(tcx, body, defs, dbg, q@, (fuel - 1) as nat),
                                    Rvalue::Ref(q) => backtrack_spec(tcx, body, defs, dbg, q@, (fuel - 1) as nat),
                                    _ => None,
                                },
                                _ => None,
                            }
                        } else {
                            match bb.terminator {
                                Some(t) => match t.kind {
                                    TerminatorKind::Call { func: Operand::Constant(c), args, .. } => match ty_of(tcx, c.ty) {
                                        Some(d) => match d.kind {
                                            TyKind::FnDef(f) => if def_path(tcx, f) == "std::ops::Deref::deref"@
                                                && args@.len() == 1 {
                                                match args@[0] {
                                                    Operand::Copy(q) => backtrack_spec(tcx, body, defs, dbg, q@, (fuel - 1) as nat),
                                                    Operand::Move(q) => backtrack_spec(tcx, body, defs, dbg, q@, (fuel - 1) as nat),
                                                    _ => None,
                                                }
                                            } else {
                                                None
                                            },
                                            _ => None,
                                        },
                                        None => None,
                                    },
                                    _ => None,
                                },
                                None => None,
                            }
                        }
                    } else {
                        None
                    }
                } else {
                    None
                }
            },
        }
    }
}

impl<'a, D: CallFocus> BodyVisitor<'a, D> {
    /// A visitor with nothing recorded yet; `f` tells whether `D` picks from
    /// the calls.
    pub fn new(tcx: &'a Tcx, f: bool) -> (r: Self)
        ensures
            r.tcx == tcx,
            r.f == f,
            place_locations_contents(r.defs).dom() == Set::<PlaceView>::empty(),
            r.switchint@.len() == 0,
            r.focus@.len() == 0,
    {
        BodyVisitor { tcx, f, defs: PlaceLocations::new(), switchint: Vec::new(), focus: Vec::new() }
    }

    /// Visits the body block by block: each assignment and each call with a
    /// destination is recorded as a definition of its place, each switch
    /// condition is kept, and, when `f` holds, `D` picks from each call.
    pub fn visit_body(&mut self, body: &Body)
        ensures
            final(self).tcx == old(self).tcx,
            final(self).f == old(self).f,
            place_locations_contents(final(self).defs) == apply_defs(
                place_locations_contents(old(self).defs),
                defs_before(*body, body.basic_blocks@.len() as int, 0),
            ),
            views(final(self).switchint@) == views(old(self).switchint@) + switches_before(
                *body,
                body.basic_blocks@.len() as int,
            ),
            views(final(self).focus@) == views(old(self).focus@) + (if old(self).f {
                focus_before::<D>(*old(self).tcx, *body, body.basic_blocks@.len() as int)
            } else {
                Seq::empty()
            }),
    {
        let ghost defs0 = place_locations_contents(self.defs);
        let ghost sw0 = views(self.switchint@);
        let ghost fo0 = views(self.focus@);
        let mut b: usize = 0;
        while b < body.basic_blocks.len()
            invariant
                b <= body.basic_blocks@.len(),
                self.tcx == old(self).tcx,
                self.f == old(self).f,
                place_locations_contents(self.defs) == apply_defs(defs0, defs_before(*body, b as int, 0)),
                views(self.switchint@) == sw0 + switches_before(*body, b as int),
                views(self.focus@) == fo0 + (if self.f {
                    focus_before::<D>(*self.tcx, *body, b as int)
                } else {
                    Seq::empty()
                }),
            decreases body.basic_blocks@.len() - b,
        {
            let bb = &body.basic_blocks[b];
            let mut j: usize = 0;
            proof {
                if b > 0 {
                    assert(defs_before(*body, b as int, 0) == defs_before(
                        *body,
                        b - 1,
                        body.basic_blocks@[b - 1].statements@.len() + 1int,
                    ));
                }
            }
            assert(defs_before(*body, b as int, 0) == defs_before(*body, b as int, j as int));
            while j < bb.statements.len()
                invariant
                    b < body.basic_blocks@.len(),
                    *bb == body.basic_blocks@[b as int],
                    j <= bb.statements@.len(),
                    self.tcx == old(self).tcx,
                    self.f == old(self).f,
                    place_locations_contents(self.defs) == apply_defs(defs0, defs_before(*body, b as int, j as int)),
                    views(self.switchint@) == sw0 + switches_before(*body, b as int),
                    views(self.focus@) == fo0 + (if self.f {
                        focus_before::<D>(*self.tcx, *body, b as int)
                    } else {
                        Seq::empty()
                    }),
                decreases bb.statements@.len() - j,
            {
                let ghost prev = defs_before(*body, b as int, j as int);
                assert(defs_before(*body, b as int, j + 1) == prev + item_defs(*body, b as int, j as int));
                match &bb.statements[j].kind {
                    StatementKind::Assign(place, _rvalue) => {
                        let loc = Location { block: b, statement_index: j };
                        proof {
                            assert(item_defs(*body, b as int, j as int) =~= seq![(place@, loc)]);
                            assert(prev + seq![(place@, loc)] =~= prev.push((place@, loc)));
                            lemma_apply_defs_push(defs0, prev, (place@, loc));
                        }
                        self.defs.push(place.copy_place(), loc);
                    },
                    _ => {
                        assert(prev + item_defs(*body, b as int, j as int) =~= prev);
                    },
                }
                j = j + 1;
            }
            let ghost prev = defs_before(*body, b as int, j as int);
            assert(defs_before(*body, b as int, j + 1) == prev + item_defs(*body, b as int, j as int));
            let loc = Location { block: b, statement_index: j };
            match &bb.terminator {
                Some(t) => match &t.kind {
                    TerminatorKind::Call { func, args, destination, .. } => {
                        match destination {
                            Some(dest) => {
                                proof {
                                    assert(item_defs(*body, b as int, j as int) =~= seq![(dest.0@, loc)]);
                                    assert(prev + seq![(dest.0@, loc)] =~= prev.push((dest.0@, loc)));
                                    lemma_apply_defs_push(defs0, prev, (dest.0@, loc));
                                }
                                self.defs.push(dest.0.copy_place(), loc);
                            },
                            None => {
                                assert(prev + item_defs(*body, b as int, j as int) =~= prev);
                            },
                        }
                        if self.f {
                            let tcx: &'a Tcx = self.tcx;
                            D::on_call(tcx, func, args, destination, &mut self.focus);
                            assert(views(self.focus@) =~= fo0 + focus_before::<D>(*self.tcx, *body, b + 1));
                        }
                        assert(switches_before(*body, b + 1) == switches_before(*body, b as int));
                    },
                    TerminatorKind::SwitchInt { discr } => {
                        assert(prev + item_defs(*body, b as int, j as int) =~= prev);
                        let ghost sw = self.switchint@;
                        self.switchint.push(discr.copy());
                        assert(views(self.switchint@) =~= views(sw).push(discr@));
                        assert(views(self.switchint@) =~= sw0 + switches_before(*body, b + 1));
                        assert(focus_before::<D>(*self.tcx, *body, b + 1) == focus_before::<D>(*self.tcx, *body, b as int));
                    },
                    _ => {
                        assert(prev + item_defs(*body, b as int, j as int) =~= prev);
                        assert(focus_before::<D>(*self.tcx, *body, b + 1) == focus_before::<D>(*self.tcx, *body, b as int));
                    },
                },
                None => {
                    assert(prev + item_defs(*body, b as int, j as int) =~= prev);
                    assert(focus_before::<D>(*self.tcx, *body, b + 1) == focus_before::<D>(*self.tcx, *body, b as int));
                },
            }
            assert(defs_before(*body, b + 1, 0) == defs_before(*body, b as int, j + 1));
            b = b + 1;
        }
    }
}

/// The view of an optional source.
pub open spec fn opt_view(r: Option<DefSource>) -> Option<DefSourceView> {
    match r {
        Some(d) => Some(d@),
        None => None,
    }
}

/// The number of statements and terminators of a body (saturating).
pub fn body_item_count(body: &Body) -> (r: usize)
    ensures
        r == item_count(*body, body.basic_blocks@.len() as int),
{
    let mut n: usize = 0;
    let mut b: usize = 0;
    while b < body.basic_blocks.len()
        invariant
            b <= body.basic_blocks@.len(),
            n == item_count(*body, b as int),
        decreases body.basic_blocks@.len() - b,
    {
        let k = body.basic_blocks[b].statements.len();
        if n as u128 + k as u128 + 1 > usize::MAX as u128 {
            n = usize::MAX;
        } else {
            n = n + k + 1;
        }
        b = b + 1;
    }
    n
}

impl<'a, D> BodyVisitor<'a, D> {
    /// The source of a place (see `backtrack_spec`); definitions are followed
    /// at most once per statement or terminator of the body, so a chain of
    /// definitions that returns to itself ends with no source.
    pub fn backtrack(&self, place: &Place, body: &Body, dbg_info: &PlaceIndex) -> (r: Option<DefSource>)
        ensures
            opt_view(r) == backtrack_spec(
                *self.tcx,
                *body,
                place_locations_contents(self.defs),
                place_index_contents(*dbg_info),
                place@,
                item_count(*body, body.basic_blocks@.len() as int),
            ),
    {
        let fuel = body_item_count(body);
        self.backtrack_steps(place, body, dbg_info, fuel)
    }

    fn backtrack_steps(&self, place: &Place, body: &Body, dbg_info: &PlaceIndex, fuel: usize) -> (r: Option<DefSource>)
        ensures
            opt_view(r) == backtrack_spec(
                *self.tcx,
                *body,
                place_locations_contents(self.defs),
                place_index_contents(*dbg_info),
                place@,
                fuel as nat,
            ),
        decreases fuel,
    {
        if fuel == 0 {
            return None;
        }
        let tcx: &'a Tcx = self.tcx;
        let base_place = Place::from_local(place.local);
        let l = place.local as usize;
        proof {
            assert(base_place@ == PlaceView { local: place.local, projection: Seq::empty() });
        }
        if l < body.user_vars.len() && body.user_vars[l] && l < body.local_decls.len() {
            let ty = tcx.peel_refs(body.local_decls[l]);
            let adt_did = match tcx.ty(ty) {
                Some(d) => match &d.kind {
                    TyKind::Adt { did, .. } => Some(*did),
                    _ => None,
                },
                None => None,
            };
            match adt_did {
                Some(did) => {
                    let idx = match dbg_info.get(&base_place) {
                        Some(i) => i,
                        None => {
                            return None;
                        },
                    };
                    if idx >= body.var_debug_info.len() {
                        return None;
                    }
                    let name = body.var_debug_info[idx].name;
                    let name_str = tcx.symbol_str(name);
                    if !is_from_assert_eq_macro(name_str.as_str()) {
                        return match tcx.adt_def(did) {
                            Some(adt) => match get_all_fields(adt, &place.projection) {
                                Some(fields) => Some(DefSource::Var { name, fields }),
                                None => None,
                            },
                            None => None,
                        };
                    }
                },
                None => {},
            }
        }
        let key: &Place = match self.defs.get(place) {
            Some(_) => place,
            None => &base_place,
        };
        let locs = match self.defs.get(key) {
            Some(v) => v,
            None => {
                return None;
            },
        };
        if locs.len() == 0 {
            return None;
        }
        let loc = locs[0];
        if loc.block >= body.basic_blocks.len() {
            return None;
        }
        let bb = &body.basic_blocks[loc.block];
        if loc.statement_index < bb.statements.len() {
            match &bb.statements[loc.statement_index].kind {
                StatementKind::Assign(_, rv) => match rv {
                    Rvalue::Use(Operand::Constant(c)) => Some(DefSource::Const(c.copy())),
                    Rvalue::Use(Operand::Copy(q)) | Rvalue::Use(Operand::Move(q)) => self.backtrack_steps(
                        q,
                        body,
                        dbg_info,
                        fuel - 1,
                    ),
                    Rvalue::Ref(q) => self.backtrack_steps(q, body, dbg_info, fuel - 1),
                    _ => None,
                },
                _ => None,
            }
        } else {
            match &bb.terminator {
                Some(t) => match &t.kind {
                    TerminatorKind::Call { func: Operand::Constant(c), args, .. } => match tcx.ty(c.ty) {
                        Some(d) => match &d.kind {
                            TyKind::FnDef(f) => {
                                let call_name = tcx.def_path_str(*f);
                                proof {
                                    reveal_strlit("std::ops::Deref::deref");
                                }
                                if str_eq(call_name.as_str(), "std::ops::Deref::deref") && args.len() == 1 {
                                    match &args[0] {
                                        Operand::Copy(q) | Operand::Move(q) => self.backtrack_steps(
                                            q,
                                            body,
                                            dbg_info,
                                            fuel - 1,
                                        ),
                                        _ => None,
                                    }
                                } else {
                                    None
                                }
                            },
                            _ => None,
                        },
                        None => None,
                    },
                    _ => None,
                },
                None => None,
            }
        }
    }

    /// The source of a place, as `backtrack` finds it.
    pub open spec fn def_of(self, p: PlaceView, body: Body, dbg_info: PlaceIndex) -> Option<DefSourceView> {
        backtrack_spec(
            *self.tcx,
            body,
            place_locations_contents(self.defs),
            place_index_contents(dbg_info),
            p,
            item_count(body, body.basic_blocks@.len() as int),
        )
    }

    /// The sources of a place (none or one, see `backtrack`).
    pub fn get_def(&self, place: &Place, body: &Body, dbg_info: &PlaceIndex) -> (r: Vec<DefSource>)
        ensures
            views(r@) == match self.def_of(place@, *body, *dbg_info) {
                Some(v) => seq![v],
                None => Seq::<DefSourceView>::empty(),
            },
    {
        let mut res: Vec<DefSource> = Vec::new();
        match self.backtrack(place, body, dbg_info) {
            Some(from) => {
                res.push(from);
                assert(views(res@) =~= seq![res@[0]@]);
            },
            None => {
                assert(views(res@) =~= Seq::<DefSourceView>::empty());
            },
        }
        res
    }
}

} // verus!
