//! Type confusion: structs whose field layouts agree (one with a prefix of
//! another) can be mistaken for one another when a value of one of them is
//! deserialized. The crate's structs are grouped by field count; each one is
//! compared with the structs of its group that follow it and with every
//! struct that has more fields, and a set of at least two compatible structs
//! is reported when a function deserializes into one of them.

use vstd::prelude::*;
use std::collections::BTreeMap;
use crate::mir::{
    adt_of, body_of, def_path, place_ty, ty_of, Body, DefId, Operand, OperandView, Place,
    PlaceView, Tcx, TerminatorKind, TyKind,
};
use crate::strs::str_eq;
use crate::visit::{views, CallFocus};

verus! {

/// A struct with the types (type ids) of its fields, in order, and the span
/// of its definition.
#[derive(Debug)]
pub struct StructDefLayout {
    pub struct_def: DefId,
    pub layout: Vec<u32>,
    pub span: u32,
}

/// The view of a `StructDefLayout`.
pub struct StructDefLayoutView {
    pub struct_def: DefId,
    pub layout: Seq<u32>,
    pub span: u32,
}

impl View for StructDefLayout {
    type V = StructDefLayoutView;

    open spec fn view(&self) -> StructDefLayoutView {
        StructDefLayoutView { struct_def: self.struct_def, layout: self.layout@, span: self.span }
    }
}

/// Whether the definition is a struct.
pub open spec fn is_struct_def(tcx: Tcx, d: DefId) -> bool {
    match adt_of(tcx, d) {
        Some(a) => a.is_struct,
        None => false,
    }
}

/// The crate's structs, among the first `n` struct items, with the spans of
/// their definitions.
pub open spec fn mod_struct_types(tcx: Tcx, n: int) -> Seq<(DefId, u32)>
    decreases n,
{
    if n <= 0 {
        Seq::empty()
    } else {
        let rest = mod_struct_types(tcx, n - 1);
        let d = tcx.struct_items@[n - 1];
        if is_struct_def(tcx, d) {
            rest.push((d, adt_of(tcx, d)->0.span))
        } else {
            rest
        }
    }
}

/// All struct types of the crate, in item order.
pub fn get_mod_struct_types(tcx: &Tcx) -> (r: Vec<(DefId, u32)>)
    ensures
        r@ == mod_struct_types(*tcx, tcx.struct_items@.len() as int),
{
    let mut r: Vec<(DefId, u32)> = Vec::new();
    let mut i: usize = 0;
    while i < tcx.struct_items.len()
        invariant
            i <= tcx.struct_items@.len(),
            r@ == mod_struct_types(*tcx, i as int),
        decreases tcx.struct_items@.len() - i,
    {
        let d = tcx.struct_items[i];
        match tcx.adt_def(d) {
            Some(a) => {
                if a.is_struct {
                    r.push((d, a.span));
                }
            },
            None => {},
        }
        i = i + 1;
    }
    r
}

/// Those of the first `n` structs that have at least one field.
pub open spec fn with_fields(tcx: Tcx, defs: Seq<(DefId, u32)>, n: int) -> Seq<(DefId, u32)>
    decreases n,
{
    if n <= 0 {
        Seq::empty()
    } else {
        let rest = with_fields(tcx, defs, n - 1);
        if field_tys(tcx, defs[n - 1].0).len() > 0 {
            rest.push(defs[n - 1])
        } else {
            rest
        }
    }
}

/// The structs that have at least one field, in their order: a struct with
/// no field has a layout that every struct starts with, and is no candidate
/// for confusion.
pub fn keep_with_fields(tcx: &Tcx, defs: &Vec<(DefId, u32)>) -> (r: Vec<(DefId, u32)>)
    ensures
        r@ == with_fields(*tcx, defs@, defs@.len() as int),
{
    let mut r: Vec<(DefId, u32)> = Vec::new();
    let mut i: usize = 0;
    while i < defs.len()
        invariant
            i <= defs@.len(),
            r@ == with_fields(*tcx, defs@, i as int),
        decreases defs@.len() - i,
    {
        let has_fields = match tcx.adt_def(defs[i].0) {
            Some(a) => a.field_tys.len() > 0,
            None => false,
        };
        if has_fields {
            r.push(defs[i]);
        }
        i = i + 1;
    }
    r
}

/// The field types of a definition (none when it is not an algebraic data
/// type).
pub open spec fn field_tys(tcx: Tcx, d: DefId) -> Seq<u32> {
    match adt_of(tcx, d) {
        Some(a) => a.field_tys@,
        None => Seq::empty(),
    }
}

/// The layout of each struct.
pub open spec fn layouts_of(tcx: Tcx, defs: Seq<(DefId, u32)>) -> Seq<StructDefLayoutView> {
    defs.map_values(|e: (DefId, u32)| StructDefLayoutView { struct_def: e.0, layout: field_tys(tcx, e.0), span: e.1 })
}

/// The layouts with `k` fields, in order.
#[verifier::opaque]
pub open spec fn with_len(ls: Seq<StructDefLayoutView>, k: nat) -> Seq<StructDefLayoutView>
    decreases ls.len(),
{
    if ls.len() == 0 {
        Seq::empty()
    } else {
        let rest = with_len(ls.drop_last(), k);
        if ls.last().layout.len() == k {
            rest.push(ls.last())
        } else {
            rest
        }
    }
}

/// The groups of layouts by field count: keys strictly increasing, each
/// group the layouts with that many fields in order, and every field count
/// a key.
pub open spec fn is_grouping(lv: Seq<StructDefLayoutView>, gv: Seq<(usize, Seq<StructDefLayoutView>)>) -> bool {
    &&& forall|a: int, b: int| 0 <= a < b < gv.len() ==> gv[a].0 < gv[b].0
    &&& forall|g: int| 0 <= g < gv.len() ==> (#[trigger] gv[g]).1 == with_len(lv, gv[g].0 as nat)
    &&& forall|g: int| 0 <= g < gv.len() ==> (#[trigger] gv[g]).1.len() > 0
    &&& forall|i: int| 0 <= i < lv.len() ==> has_key(gv, (#[trigger] lv[i]).layout.len())
}

/// Whether one of the groups has key `n`.
pub open spec fn has_key(gv: Seq<(usize, Seq<StructDefLayoutView>)>, n: nat) -> bool {
    exists|g: int| 0 <= g < gv.len() && gv[g].0 == n
}

/// The view of groups of layouts.
pub open spec fn groups_view(groups: Seq<(usize, Vec<StructDefLayout>)>) -> Seq<(usize, Seq<StructDefLayoutView>)> {
    groups.map_values(|g: (usize, Vec<StructDefLayout>)| (g.0, views(g.1@)))
}

/// A copy of a layout.
fn copy_layout(l: &StructDefLayout) -> (r: StructDefLayout)
    ensures
        r@ == l@,
{
    StructDefLayout { struct_def: l.struct_def, layout: l.layout.clone(), span: l.span }
}

/// The layouts with `k` fields, in order.
fn layouts_with_len(ls: &Vec<StructDefLayout>, k: usize) -> (r: Vec<StructDefLayout>)
    ensures
        views(r@) == with_len(views(ls@), k as nat),
{
    let mut r: Vec<StructDefLayout> = Vec::new();
    let mut i: usize = 0;
    proof {
        reveal(with_len);
    }
    while i < ls.len()
        invariant
            i <= ls@.len(),
            views(r@) == with_len(views(ls@).subrange(0, i as int), k as nat),
        decreases ls@.len() - i,
    {
        let ghost before = r@;
        proof {
            assert(views(ls@).subrange(0, i + 1).drop_last() =~= views(ls@).subrange(0, i as int));
            reveal(with_len);
        }
        if ls[i].layout.len() == k {
            r.push(copy_layout(&ls[i]));
            assert(views(r@) =~= views(before).push(ls@[i as int]@));
        } else {
            assert(views(r@) =~= views(before));
        }
        i = i + 1;
    }
    assert(views(ls@).subrange(0, ls@.len() as int) =~= views(ls@));
    proof {
        reveal(with_len);
    }
    r
}

/// The smallest field count of at least `lo`, if any.
fn min_len_from(ls: &Vec<StructDefLayout>, lo: usize) -> (r: Option<usize>)
    ensures
        match r {
            Some(k) => k >= lo && (exists|i: int| 0 <= i < ls@.len() && ls@[i].layout@.len() == k) && forall|i: int|
                0 <= i < ls@.len() && ls@[i].layout@.len() >= lo ==> ls@[i].layout@.len() >= k,
            None => forall|i: int| 0 <= i < ls@.len() ==> ls@[i].layout@.len() < lo,
        },
{
    let mut best: Option<usize> = None;
    let mut j: usize = 0;
    while j < ls.len()
        invariant
            j <= ls@.len(),
            match best {
                Some(k) => k >= lo && (exists|i: int| 0 <= i < j && ls@[i].layout@.len() == k) && forall|i: int|
                    0 <= i < j && ls@[i].layout@.len() >= lo ==> ls@[i].layout@.len() >= k,
                None => forall|i: int| 0 <= i < j ==> ls@[i].layout@.len() < lo,
            },
        decreases ls@.len() - j,
    {
        let len = ls[j].layout.len();
        if len >= lo {
            match best {
                Some(k) => {
                    if len < k {
                        best = Some(len);
                    }
                },
                None => {
                    best = Some(len);
                },
            }
        }
        j = j + 1;
    }
    best
}

/// `usize` keys compare as the integers they are.
pub open spec fn usize_keys_ordered() -> bool {
    vstd::laws_cmp::obeys_cmp::<usize>()
}

/// `usize` keys compare as the integers they are.
proof fn lemma_usize_keys_ordered()
    ensures
        usize_keys_ordered(),
{
    broadcast use vstd::laws_cmp::group_laws_cmp;
}

/// Groups the crate's structs by field count: the map takes each field
/// count of a struct to the layouts of the structs with that many fields,
/// in the order of the structs.
pub fn find_confusion_types(tcx: &Tcx, all_struct_defs: &[(DefId, u32)]) -> (r: BTreeMap<usize, Vec<StructDefLayout>>)
    ensures
        forall|n: usize|
            #[trigger] r@.contains_key(n) <==> exists|i: int|
                0 <= i < all_struct_defs@.len() && layouts_of(*tcx, all_struct_defs@)[i].layout.len() == n,
        forall|n: usize| #[trigger] r@.contains_key(n) ==> views(r@[n]@) == with_len(layouts_of(*tcx, all_struct_defs@), n as nat),
{
    let groups = group_layouts(tcx, all_struct_defs);
    let ghost lv = layouts_of(*tcx, all_struct_defs@);
    let ghost gv = groups_view(groups@);
    proof {
        lemma_usize_keys_ordered();
    }
    let mut rest = groups;
    let mut m: BTreeMap<usize, Vec<StructDefLayout>> = BTreeMap::new();
    while rest.len() > 0
        invariant
            usize_keys_ordered(),
            is_grouping(lv, gv),
            rest@.len() <= gv.len(),
            groups_view(rest@) == gv.subrange(0, rest@.len() as int),
            forall|n: usize| #[trigger] m@.contains_key(n) <==> exists|g: int| rest@.len() <= g < gv.len() && gv[g].0 == n,
            forall|g: int| rest@.len() <= g < gv.len() ==> #[trigger] m@.contains_key(gv[g].0) && views(m@[gv[g].0]@) == gv[g].1,
        decreases rest@.len(),
    {
        let ghost before = rest@;
        let (k, v) = rest.pop().unwrap();
        proof {
            let j = rest@.len() as int;
            assert(groups_view(before)[j] == gv[j]);
            assert(groups_view(rest@) =~= gv.subrange(0, j));
            assert forall|g: int| j < g < gv.len() implies gv[g].0 != k by {
                assert(gv[j].0 < gv[g].0);
            }
        }
        m.insert(k, v);
        proof {
            let j = rest@.len() as int;
            assert forall|n: usize| #[trigger] m@.contains_key(n) <==> exists|g: int| rest@.len() <= g < gv.len() && gv[g].0 == n by {
                if n == k {
                    assert(gv[j].0 == n);
                }
            }
        }
    }
    proof {
        assert forall|n: usize| #[trigger] m@.contains_key(n) implies views(m@[n]@) == with_len(lv, n as nat) by {
            let g = choose|g: int| 0 <= g < gv.len() && gv[g].0 == n;
        }
        assert forall|n: usize| (exists|i: int| 0 <= i < lv.len() && lv[i].layout.len() == n) implies #[trigger] m@.contains_key(n) by {
            let i = choose|i: int| 0 <= i < lv.len() && lv[i].layout.len() == n;
            assert(has_key(gv, lv[i].layout.len()));
        }
        assert forall|n: usize| #[trigger] m@.contains_key(n) implies (exists|i: int| 0 <= i < lv.len() && lv[i].layout.len() == n) by {
            let g = choose|g: int| 0 <= g < gv.len() && gv[g].0 == n;
            assert(gv[g].1.len() > 0);
            lemma_with_len_source(lv, n as nat);
        }
    }
    m
}

/// Groups the crate's structs by field count, in increasing order of field
/// count, each group in the order of the structs.
fn group_layouts(tcx: &Tcx, all_struct_defs: &[(DefId, u32)]) -> (r: Vec<(usize, Vec<StructDefLayout>)>)
    ensures
        is_grouping(layouts_of(*tcx, all_struct_defs@), groups_view(r@)),
{
    let mut ls: Vec<StructDefLayout> = Vec::new();
    let mut i: usize = 0;
    while i < all_struct_defs.len()
        invariant
            i <= all_struct_defs@.len(),
            views(ls@) == layouts_of(*tcx, all_struct_defs@.subrange(0, i as int)),
        decreases all_struct_defs@.len() - i,
    {
        let (d, span) = all_struct_defs[i];
        let layout: Vec<u32> = match tcx.adt_def(d) {
            Some(a) => a.field_tys.clone(),
            None => Vec::new(),
        };
        let ghost before = ls@;
        ls.push(StructDefLayout { struct_def: d, layout, span });
        assert(views(ls@) =~= views(before).push(ls@[i as int]@));
        assert(all_struct_defs@.subrange(0, i + 1) =~= all_struct_defs@.subrange(0, i as int).push(
            all_struct_defs@[i as int],
        ));
        assert(layouts_of(*tcx, all_struct_defs@.subrange(0, i + 1)) =~= layouts_of(
            *tcx,
            all_struct_defs@.subrange(0, i as int),
        ).push(ls@[i as int]@));
        i = i + 1;
    }
    assert(all_struct_defs@.subrange(0, all_struct_defs@.len() as int) =~= all_struct_defs@);
    let ghost lv = views(ls@);
    let mut groups: Vec<(usize, Vec<StructDefLayout>)> = Vec::new();
    let mut lo: usize = 0;
    proof {
        assert(grouping_below(lv, groups_view(groups@), 0));
    }
    loop
        invariant_except_break
            lv == views(ls@),
            grouping_below(lv, groups_view(groups@), lo as int),
        ensures
            is_grouping(lv, groups_view(groups@)),
        decreases usize::MAX - lo,
    {
        match min_len_from(&ls, lo) {
            None => {
                proof {
                    assert forall|i: int| 0 <= i < lv.len() implies (#[trigger] lv[i]).layout.len() < lo by {
                        assert(lv[i] == ls@[i]@);
                    }
                    lemma_grouping_done(lv, groups_view(groups@), lo as int);
                }
                break;
            },
            Some(k) => {
                let group = layouts_with_len(&ls, k);
                let ghost before = groups_view(groups@);
                groups.push((k, group));
                proof {
                    assert(groups_view(groups@) =~= before.push((k, with_len(lv, k as nat))));
                    assert forall|i: int| 0 <= i < lv.len() && (#[trigger] lv[i]).layout.len() >= lo implies lv[i].layout.len() >= k by {
                        assert(lv[i] == ls@[i]@);
                    }
                    let wi = choose|i: int| 0 <= i < ls@.len() && ls@[i].layout@.len() == k;
                    assert(lv[wi] == ls@[wi]@);
                    lemma_grouping_push(lv, before, lo as int, k);
                }
                if k == usize::MAX {
                    proof {
                        assert forall|i: int| 0 <= i < lv.len() implies (#[trigger] lv[i]).layout.len() < k + 1 by {
                            assert(lv[i] == ls@[i]@);
                            assert(ls@[i].layout@.len() == ls@[i].layout.len());
                        }
                        lemma_grouping_done(lv, groups_view(groups@), k + 1);
                    }
                    break;
                }
                lo = k + 1;
            },
        }
    }
    groups
}

/// The groups so far: keys increasing and below `lo`, each group exact,
/// each key a field count, and every field count below `lo` a key.
pub open spec fn grouping_below(lv: Seq<StructDefLayoutView>, gv: Seq<(usize, Seq<StructDefLayoutView>)>, lo: int) -> bool {
    &&& forall|a: int, b: int| 0 <= a < b < gv.len() ==> gv[a].0 < gv[b].0
    &&& forall|g: int| 0 <= g < gv.len() ==> (#[trigger] gv[g]).0 < lo
    &&& forall|g: int| 0 <= g < gv.len() ==> (#[trigger] gv[g]).1 == with_len(lv, gv[g].0 as nat)
    &&& forall|g: int| 0 <= g < gv.len() ==> (#[trigger] gv[g]).1.len() > 0
    &&& forall|i: int| 0 <= i < lv.len() && (#[trigger] lv[i]).layout.len() < lo ==> has_key(gv, lv[i].layout.len())
}

proof fn lemma_with_len_nonempty(lv: Seq<StructDefLayoutView>, k: nat, i: int)
    requires
        0 <= i < lv.len(),
        lv[i].layout.len() == k,
    ensures
        with_len(lv, k).len() > 0,
    decreases lv.len(),
{
    reveal(with_len);
    if i < lv.len() - 1 {
        lemma_with_len_nonempty(lv.drop_last(), k, i);
    }
}

/// A layout with `k` fields among `lv` makes the group of `k` nonempty,
/// and only then.
proof fn lemma_with_len_source(lv: Seq<StructDefLayoutView>, k: nat)
    requires
        with_len(lv, k).len() > 0,
    ensures
        exists|i: int| 0 <= i < lv.len() && lv[i].layout.len() == k,
    decreases lv.len(),
{
    reveal(with_len);
    if lv.last().layout.len() == k {
        assert(lv[lv.len() - 1].layout.len() == k);
    } else {
        lemma_with_len_source(lv.drop_last(), k);
        let i = choose|i: int| 0 <= i < lv.drop_last().len() && lv.drop_last()[i].layout.len() == k;
        assert(lv[i] == lv.drop_last()[i]);
    }
}

proof fn lemma_grouping_push(lv: Seq<StructDefLayoutView>, gv: Seq<(usize, Seq<StructDefLayoutView>)>, lo: int, k: usize)
    requires
        grouping_below(lv, gv, lo),
        k >= lo,
        exists|i: int| 0 <= i < lv.len() && lv[i].layout.len() == k,
        forall|i: int| 0 <= i < lv.len() && (#[trigger] lv[i]).layout.len() >= lo ==> lv[i].layout.len() >= k,
    ensures
        grouping_below(lv, gv.push((k, with_len(lv, k as nat))), k + 1),
{
    let gv2 = gv.push((k, with_len(lv, k as nat)));
    assert forall|a: int, b: int| 0 <= a < b < gv2.len() implies gv2[a].0 < gv2[b].0 by {
        if b < gv.len() {
            assert(gv2[a] == gv[a] && gv2[b] == gv[b]);
        } else {
            assert(gv2[a] == gv[a]);
        }
    }
    assert forall|g: int| 0 <= g < gv2.len() implies (#[trigger] gv2[g]).0 < k + 1 by {
        if g < gv.len() {
            assert(gv2[g] == gv[g]);
        }
    }
    assert forall|g: int| 0 <= g < gv2.len() implies (#[trigger] gv2[g]).1 == with_len(lv, gv2[g].0 as nat) by {
        if g < gv.len() {
            assert(gv2[g] == gv[g]);
        }
    }
    let wi = choose|i: int| 0 <= i < lv.len() && lv[i].layout.len() == k;
    lemma_with_len_nonempty(lv, k as nat, wi);
    assert forall|g: int| 0 <= g < gv2.len() implies (#[trigger] gv2[g]).1.len() > 0 by {
        if g < gv.len() {
            assert(gv2[g] == gv[g]);
        }
    }
    assert forall|i: int| 0 <= i < lv.len() && (#[trigger] lv[i]).layout.len() < k + 1 implies has_key(gv2, lv[i].layout.len()) by {
        if lv[i].layout.len() < lo {
            let g0 = choose|g: int| 0 <= g < gv.len() && gv[g].0 == lv[i].layout.len();
            assert(gv2[g0] == gv[g0]);
        } else {
            assert(gv2[gv.len() as int].0 == lv[i].layout.len());
        }
    }
}

proof fn lemma_grouping_done(lv: Seq<StructDefLayoutView>, gv: Seq<(usize, Seq<StructDefLayoutView>)>, lo: int)
    requires
        grouping_below(lv, gv, lo),
        forall|i: int| 0 <= i < lv.len() ==> (#[trigger] lv[i]).layout.len() < lo,
    ensures
        is_grouping(lv, gv),
{
    assert forall|i: int| 0 <= i < lv.len() implies has_key(gv, (#[trigger] lv[i]).layout.len()) by {
        assert(lv[i].layout.len() < lo);
    }
}

/// How a field type's size compares: two fields agree unless both sizes are
/// known and differ.
pub open spec fn field_sizes_agree(tcx: Tcx, t1: u32, t2: u32) -> bool {
    match (ty_of(tcx, t1), ty_of(tcx, t2)) {
        (Some(d1), Some(d2)) => match (d1.layout_size, d2.layout_size) {
            (Some(a), Some(b)) => a == b,
            _ => true,
        },
        _ => true,
    }
}

/// Whether the fields of `s1` agree in size with the first fields of `s2`.
pub open spec fn layout_compatible(tcx: Tcx, s1: Seq<u32>, s2: Seq<u32>) -> bool {
    forall|i: int| 0 <= i < s1.len() ==> field_sizes_agree(tcx, #[trigger] s1[i], s2[i])
}

/// Whether the fields of `s1` agree in size with the first fields of `s2`;
/// `s1` has no more fields than `s2`.
pub fn is_layout_compatible(tcx: &Tcx, s1: &StructDefLayout, s2: &StructDefLayout) -> (r: bool)
    requires
        s1.layout@.len() <= s2.layout@.len(),
    ensures
        r == layout_compatible(*tcx, s1.layout@, s2.layout@),
{
    let k = s1.layout.len();
    let mut i: usize = 0;
    while i < k
        invariant
            k == s1.layout@.len(),
            k <= s2.layout@.len(),
            i <= k,
            forall|j: int| 0 <= j < i ==> field_sizes_agree(*tcx, #[trigger] s1.layout@[j], s2.layout@[j]),
        decreases k - i,
    {
        let a = match tcx.ty(s1.layout[i]) {
            Some(d) => d.layout_size,
            None => None,
        };
        let b = match tcx.ty(s2.layout[i]) {
            Some(d) => d.layout_size,
            None => None,
        };
        match (a, b) {
            (Some(x), Some(y)) => {
                if x != y {
                    assert(!field_sizes_agree(*tcx, s1.layout@[i as int], s2.layout@[i as int]));
                    return false;
                }
            },
            _ => {},
        }
        i = i + 1;
    }
    true
}

/// A call that deserializes: its argument and the place that receives the
/// result.
pub struct BorshDeserializeStmt {
    pub _from: Operand,
    pub dest: Place,
}

/// The view of a `BorshDeserializeStmt`.
pub struct BorshDeserializeStmtView {
    pub from: OperandView,
    pub dest: PlaceView,
}

impl View for BorshDeserializeStmt {
    type V = BorshDeserializeStmtView;

    open spec fn view(&self) -> BorshDeserializeStmtView {
        BorshDeserializeStmtView { from: self._from@, dest: self.dest@ }
    }
}

/// The functions that deserialize account data.
pub open spec fn is_deserialize_fn(name: Seq<char>) -> bool {
    name == "borsh::BorshDeserialize::deserialize"@ || name == "anchor_lang::AnchorDeserialize::try_from_slice"@
}

/// What a call contributes: a call of a deserializing function with one
/// argument and a destination gives that argument and destination.
pub open spec fn deserialize_focus(tcx: Tcx, func: Operand, args: Seq<Operand>, dest: Option<(Place, usize)>) -> Seq<BorshDeserializeStmtView> {
    match func {
        Operand::Constant(c) => match ty_of(tcx, c.ty) {
            Some(d) => match d.kind {
                TyKind::FnDef(f) => match dest {
                    Some(dd) => if is_deserialize_fn(def_path(tcx, f)) && args.len() == 1 {
                        seq![BorshDeserializeStmtView { from: args[0]@, dest: dd.0@ }]
                    } else {
                        Seq::empty()
                    },
                    None => Seq::empty(),
                },
                _ => Seq::empty(),
            },
            None => Seq::empty(),
        },
        _ => Seq::empty(),
    }
}

/// Records a call that deserializes (see `deserialize_focus`); a call with
/// other than one argument or without a destination is passed over.
pub fn check_deserializations(
    tcx: &Tcx,
    func: &Operand,
    args: &Vec<Operand>,
    dest: &Option<(Place, usize)>,
    stmts: &mut Vec<BorshDeserializeStmt>,
)
    ensures
        views(final(stmts)@) == views(old(stmts)@) + deserialize_focus(*tcx, *func, args@, *dest),
{
    let ghost before = stmts@;
    match func {
        Operand::Constant(c) => match tcx.ty(c.ty) {
            Some(d) => match &d.kind {
                TyKind::FnDef(f) => {
                    let call_name = tcx.def_path_str(*f);
                    proof {
                        reveal_strlit("borsh::BorshDeserialize::deserialize");
                        reveal_strlit("anchor_lang::AnchorDeserialize::try_from_slice");
                    }
                    if (str_eq(call_name.as_str(), "borsh::BorshDeserialize::deserialize") || str_eq(
                        call_name.as_str(),
                        "anchor_lang::AnchorDeserialize::try_from_slice",
                    )) && args.len() == 1 {
                        match dest {
                            Some(dd) => {
                                stmts.push(BorshDeserializeStmt { _from: args[0].copy(), dest: dd.0.copy_place() });
                                assert(views(stmts@) =~= views(before) + deserialize_focus(*tcx, *func, args@, *dest));
                                return;
                            },
                            None => {},
                        }
                    }
                },
                _ => {},
            },
            None => {},
        },
        _ => {},
    }
    assert(views(stmts@) =~= views(before) + deserialize_focus(*tcx, *func, args@, *dest));
}

impl CallFocus for BorshDeserializeStmt {
    open spec fn focus_of(tcx: Tcx, func: Operand, args: Seq<Operand>, dest: Option<(Place, usize)>) -> Seq<BorshDeserializeStmtView> {
        deserialize_focus(tcx, func, args, dest)
    }

    fn on_call(tcx: &Tcx, func: &Operand, args: &Vec<Operand>, dest: &Option<(Place, usize)>, focus: &mut Vec<Self>) {
        check_deserializations(tcx, func, args, dest, focus);
    }
}

/// The number of type arguments that are one of the structs.
pub open spec fn subst_hits(tcx: Tcx, substs: Seq<u32>, compat: Seq<DefId>) -> nat
    decreases substs.len(),
{
    if substs.len() == 0 {
        0
    } else {
        subst_hits(tcx, substs.drop_last(), compat) + match ty_of(tcx, substs.last()) {
            Some(d) => match d.kind {
                TyKind::Adt { did, .. } => if compat.contains(did) { 1nat } else { 0nat },
                _ => 0nat,
            },
            None => 0nat,
        }
    }
}

/// How often a deserialization into `dest` yields one of the structs: the
/// destination is a `Result`, and each of its type arguments that is one of
/// the structs counts once.
pub open spec fn dest_hits(tcx: Tcx, body: Body, dest: PlaceView, compat: Seq<DefId>) -> nat {
    match place_ty(tcx, body, dest) {
        Some(t) => match ty_of(tcx, t) {
            Some(d) => match d.kind {
                TyKind::Adt { did, substs } => if def_path(tcx, did) == "std::result::Result"@ {
                    subst_hits(tcx, substs@, compat)
                } else {
                    0
                },
                _ => 0,
            },
            None => 0,
        },
        None => 0,
    }
}

/// How often the deserializations of a body yield one of the structs.
pub open spec fn focus_hits(tcx: Tcx, body: Body, f: Seq<BorshDeserializeStmtView>, compat: Seq<DefId>) -> nat
    decreases f.len(),
{
    if f.len() == 0 {
        0
    } else {
        focus_hits(tcx, body, f.drop_last(), compat) + dest_hits(tcx, body, f.last().dest, compat)
    }
}

/// The deserializations of a body.
pub open spec fn body_deserializations(tcx: Tcx, body: Body) -> Seq<BorshDeserializeStmtView> {
    crate::visit::focus_before::<BorshDeserializeStmt>(tcx, body, body.basic_blocks@.len() as int)
}

/// The functions, among the first `n` function items, whose
/// deserializations yield one of the structs, each once per such yield.
pub open spec fn uses_in(tcx: Tcx, compat: Seq<DefId>, n: int) -> Seq<DefId>
    decreases n,
{
    if n <= 0 {
        Seq::empty()
    } else {
        let rest = uses_in(tcx, compat, n - 1);
        let d = tcx.fn_items@[n - 1];
        match body_of(tcx, d) {
            Some(b) => rest + Seq::new(focus_hits(tcx, b, body_deserializations(tcx, b), compat), |_i: int| d),
            None => rest,
        }
    }
}

/// The definitions of the structs.
pub open spec fn struct_ids(compatible: Seq<&StructDefLayout>) -> Seq<DefId> {
    compatible.map_values(|x: &StructDefLayout| x.struct_def)
}

/// Whether a definition is one of the structs.
fn is_compatible_struct(compatible: &[&StructDefLayout], did: DefId) -> (r: bool)
    ensures
        r == struct_ids(compatible@).contains(did),
{
    let mut i: usize = 0;
    while i < compatible.len()
        invariant
            i <= compatible@.len(),
            forall|j: int| 0 <= j < i ==> struct_ids(compatible@)[j] != did,
        decreases compatible@.len() - i,
    {
        if compatible[i].struct_def == did {
            assert(struct_ids(compatible@)[i as int] == did);
            return true;
        }
        i = i + 1;
    }
    false
}

/// The functions in which a value is deserialized into a `Result` of one of
/// the structs (see `uses_in`).
pub fn check_uses(tcx: &Tcx, compatible: &[&StructDefLayout]) -> (r: Vec<DefId>)
    ensures
        r@ == uses_in(*tcx, struct_ids(compatible@), tcx.fn_items@.len() as int),
{
    let ghost compat = struct_ids(compatible@);
    let mut used_in: Vec<DefId> = Vec::new();
    let mut k: usize = 0;
    while k < tcx.fn_items.len()
        invariant
            k <= tcx.fn_items@.len(),
            compat == struct_ids(compatible@),
            used_in@ == uses_in(*tcx, compat, k as int),
        decreases tcx.fn_items@.len() - k,
    {
        let def_id = tcx.fn_items[k];
        match tcx.optimized_mir(def_id) {
            Some(body) => {
                let mut visitor: crate::visit::BodyVisitor<BorshDeserializeStmt> = crate::visit::BodyVisitor {
                    tcx,
                    f: true,
                    defs: crate::collections::PlaceLocations::new(),
                    switchint: Vec::new(),
                    focus: Vec::new(),
                };
                visitor.visit_body(body);
                let ghost fv = views(visitor.focus@);
                assert(fv =~= body_deserializations(*tcx, *body));
                let ghost base = used_in@;
                let mut s: usize = 0;
                while s < visitor.focus.len()
                    invariant
                        s <= visitor.focus@.len(),
                        fv == views(visitor.focus@),
                        compat == struct_ids(compatible@),
                        used_in@ == base + Seq::new(focus_hits(*tcx, *body, fv.subrange(0, s as int), compat), |_i: int| def_id),
                    decreases visitor.focus@.len() - s,
                {
                    assert(fv.subrange(0, s + 1).drop_last() =~= fv.subrange(0, s as int));
                    let ghost h0 = focus_hits(*tcx, *body, fv.subrange(0, s as int), compat);
                    let dest = &visitor.focus[s].dest;
                    match crate::mir::place_ty_exec(tcx, body, dest) {
                        Some(t) => match tcx.ty(t) {
                            Some(d) => match &d.kind {
                                TyKind::Adt { did, substs } => {
                                    let name = tcx.def_path_str(*did);
                                    proof {
                                        reveal_strlit("std::result::Result");
                                    }
                                    if str_eq(name.as_str(), "std::result::Result") {
                                        let mut j: usize = 0;
                                        while j < substs.len()
                                            invariant
                                                j <= substs@.len(),
                                                compat == struct_ids(compatible@),
                                                used_in@ == base + Seq::new(
                                                    (h0 + subst_hits(*tcx, substs@.subrange(0, j as int), compat)) as nat,
                                                    |_i: int| def_id,
                                                ),
                                            decreases substs@.len() - j,
                                        {
                                            assert(substs@.subrange(0, j + 1).drop_last() =~= substs@.subrange(0, j as int));
                                            let hit = match tcx.ty(substs[j]) {
                                                Some(sd) => match &sd.kind {
                                                    TyKind::Adt { did: sdid, .. } => is_compatible_struct(compatible, *sdid),
                                                    _ => false,
                                                },
                                                None => false,
                                            };
                                            if hit {
                                                let ghost u0 = used_in@;
                                                used_in.push(def_id);
                                                assert(used_in@ =~= base + Seq::new(
                                                    (h0 + subst_hits(*tcx, substs@.subrange(0, j + 1), compat)) as nat,
                                                    |_i: int| def_id,
                                                ));
                                            } else {
                                                assert(used_in@ =~= base + Seq::new(
                                                    (h0 + subst_hits(*tcx, substs@.subrange(0, j + 1), compat)) as nat,
                                                    |_i: int| def_id,
                                                ));
                                            }
                                            j = j + 1;
                                        }
                                        assert(substs@.subrange(0, substs@.len() as int) =~= substs@);
                                    } else {
                                        assert(used_in@ =~= base + Seq::new(focus_hits(*tcx, *body, fv.subrange(0, s + 1), compat), |_i: int| def_id));
                                    }
                                },
                                _ => {
                                    assert(used_in@ =~= base + Seq::new(focus_hits(*tcx, *body, fv.subrange(0, s + 1), compat), |_i: int| def_id));
                                },
                            },
                            None => {
                                assert(used_in@ =~= base + Seq::new(focus_hits(*tcx, *body, fv.subrange(0, s + 1), compat), |_i: int| def_id));
                            },
                        },
                        None => {
                            assert(used_in@ =~= base + Seq::new(focus_hits(*tcx, *body, fv.subrange(0, s + 1), compat), |_i: int| def_id));
                        },
                    }
                    assert(used_in@ =~= base + Seq::new(focus_hits(*tcx, *body, fv.subrange(0, s + 1), compat), |_i: int| def_id));
                    s = s + 1;
                }
                assert(fv.subrange(0, fv.len() as int) =~= fv);
            },
            None => {},
        }
        k = k + 1;
    }
    used_in
}

/// The layouts, among `ls`, whose leading fields agree in size with `l`.
pub open spec fn compat_in(tcx: Tcx, l: Seq<u32>, ls: Seq<StructDefLayoutView>) -> Seq<StructDefLayoutView>
    decreases ls.len(),
{
    if ls.len() == 0 {
        Seq::empty()
    } else {
        let rest = compat_in(tcx, l, ls.drop_last());
        if layout_compatible(tcx, l, ls.last().layout) {
            rest.push(ls.last())
        } else {
            rest
        }
    }
}

/// The layouts of groups `g..n` that agree with `l`, group by group.
pub open spec fn larger_compat(tcx: Tcx, l: Seq<u32>, gv: Seq<(usize, Seq<StructDefLayoutView>)>, g: int, n: int) -> Seq<StructDefLayoutView>
    decreases n - g,
{
    if n <= g {
        Seq::empty()
    } else {
        larger_compat(tcx, l, gv, g, n - 1) + compat_in(tcx, l, gv[n - 1].1)
    }
}

/// The structs that struct `si` of group `gi` may be confused with, itself
/// first: the later structs of its group, then the structs of the larger
/// groups, whose leading fields agree in size with its fields.
pub open spec fn compat_list(tcx: Tcx, gv: Seq<(usize, Seq<StructDefLayoutView>)>, gi: int, si: int) -> Seq<StructDefLayoutView> {
    let grp = gv[gi].1;
    let st = grp[si];
    seq![st] + compat_in(tcx, st.layout, grp.subrange(si + 1, grp.len() as int)) + larger_compat(
        tcx,
        st.layout,
        gv,
        gi + 1,
        gv.len() as int,
    )
}

/// The finding for struct `si` of group `gi`: when it may be confused with
/// another struct and a function deserializes into one of them, the list of
/// those functions and the source of the structs' definitions.
pub open spec fn finding_at(tcx: Tcx, gv: Seq<(usize, Seq<StructDefLayoutView>)>, gi: int, si: int) -> Option<(Seq<char>, Seq<char>)> {
    let c = compat_list(tcx, gv, gi, si);
    if c.len() >= 2 {
        let used = uses_in(tcx, c.map_values(|x: StructDefLayoutView| x.struct_def), tcx.fn_items@.len() as int);
        if used.len() > 0 {
            Some((
                crate::strs::join_with(used.map_values(|d: DefId| def_path(tcx, d)), ", "@),
                crate::strs::join_with(
                    crate::source_info::spans_lines(tcx, c.map_values(|x: StructDefLayoutView| x.span)),
                    "\n"@,
                ),
            ))
        } else {
            None
        }
    } else {
        None
    }
}

/// The findings before struct `si` of group `gi`, in order.
pub open spec fn findings_before(tcx: Tcx, gv: Seq<(usize, Seq<StructDefLayoutView>)>, gi: int, si: int) -> Seq<(Seq<char>, Seq<char>)>
    decreases gi, si,
{
    if gi <= 0 && si <= 0 {
        Seq::empty()
    } else if si <= 0 {
        findings_before(tcx, gv, gi - 1, gv[gi - 1].1.len() as int)
    } else {
        let rest = findings_before(tcx, gv, gi, si - 1);
        match finding_at(tcx, gv, gi, si - 1) {
            Some(f) => rest.push(f),
            None => rest,
        }
    }
}

/// Whether `b` is `a` after recording a type confusion finding.
pub open spec fn confusion_step(a: crate::reporter::Report, b: crate::reporter::Report, f: (Seq<char>, Seq<char>)) -> bool {
    crate::reporter::report_wf(a) && crate::reporter::bug_recorded(
        a,
        b,
        crate::reporter::VulnerabilityType::TypeConfusion,
        "Critical"@,
        f.0,
        f.1,
        Seq::empty(),
        "UnResolved"@,
        "GitHub Link to be added."@,
        Seq::empty(),
        Seq::empty(),
        Seq::empty(),
    )
}

/// `b` is `a` after recording the type confusion findings, one after the
/// other: `rs` holds the report before each finding and, last, `b`.
pub open spec fn confusions_recorded(a: crate::reporter::Report, b: crate::reporter::Report, fs: Seq<(Seq<char>, Seq<char>)>) -> bool {
    exists|rs: Seq<crate::reporter::Report>|
        #![trigger confusion_chain(rs, fs)]
        rs.len() == fs.len() + 1 && rs[0] == a && rs.last() == b && confusion_chain(rs, fs)
}

/// Each report of `rs` leads to the next by recording the matching finding.
pub open spec fn confusion_chain(rs: Seq<crate::reporter::Report>, fs: Seq<(Seq<char>, Seq<char>)>) -> bool {
    forall|i: int| 0 <= i < fs.len() ==> confusion_step(rs[i], #[trigger] rs[i + 1], fs[i])
}

proof fn lemma_recorded_push(
    a: crate::reporter::Report,
    mid: crate::reporter::Report,
    b: crate::reporter::Report,
    fs: Seq<(Seq<char>, Seq<char>)>,
    f: (Seq<char>, Seq<char>),
)
    requires
        confusions_recorded(a, mid, fs),
        confusion_step(mid, b, f),
    ensures
        confusions_recorded(a, b, fs.push(f)),
{
    let rs = choose|rs: Seq<crate::reporter::Report>| rs.len() == fs.len() + 1 && rs[0] == a && rs.last() == mid && confusion_chain(rs, fs);
    let rs2 = rs.push(b);
    let fs2 = fs.push(f);
    assert forall|i: int| 0 <= i < fs2.len() implies confusion_step(rs2[i], #[trigger] rs2[i + 1], fs2[i]) by {
        if i < fs.len() {
            assert(rs2[i] == rs[i] && rs2[i + 1] == rs[i + 1] && fs2[i] == fs[i]);
        } else {
            assert(rs2[i] == mid && rs2[i + 1] == b && fs2[i] == f);
        }
    }
    assert(confusion_chain(rs2, fs2));
    assert(rs2.len() == fs2.len() + 1 && rs2[0] == a && rs2.last() == b);
}

proof fn lemma_recorded_empty(a: crate::reporter::Report)
    ensures
        confusions_recorded(a, a, Seq::empty()),
{
    let rs = seq![a];
    let fs = Seq::<(Seq<char>, Seq<char>)>::empty();
    assert(confusion_chain(rs, fs));
    assert(rs.len() == fs.len() + 1 && rs[0] == a && rs.last() == a);
}

proof fn lemma_with_len_members(lv: Seq<StructDefLayoutView>, k: nat)
    ensures
        forall|i: int| 0 <= i < with_len(lv, k).len() ==> (#[trigger] with_len(lv, k)[i]).layout.len() == k,
    decreases lv.len(),
{
    reveal(with_len);
    if lv.len() > 0 {
        lemma_with_len_members(lv.drop_last(), k);
        let rest = with_len(lv.drop_last(), k);
        assert forall|i: int| 0 <= i < with_len(lv, k).len() implies (#[trigger] with_len(lv, k)[i]).layout.len() == k by {
            if i < rest.len() {
                assert(with_len(lv, k)[i] == rest[i]);
            }
        }
    }
}

/// The views of the structs.
pub open spec fn ref_views(c: Seq<&StructDefLayout>) -> Seq<StructDefLayoutView> {
    c.map_values(|x: &StructDefLayout| x@)
}

/// Appends the structs of `ls` whose leading fields agree with `st`'s.
fn push_compatible<'b>(tcx: &Tcx, st: &StructDefLayout, ls: &'b [StructDefLayout], from: usize, out: &mut Vec<&'b StructDefLayout>)
    requires
        from <= ls@.len(),
        forall|i: int| from <= i < ls@.len() ==> st.layout@.len() <= (#[trigger] ls@[i]).layout@.len(),
    ensures
        ref_views(final(out)@) == ref_views(old(out)@) + compat_in(*tcx, st.layout@, views(ls@).subrange(from as int, ls@.len() as int)),
{
    let ghost base = ref_views(out@);
    let mut j: usize = from;
    while j < ls.len()
        invariant
            from <= j <= ls@.len(),
            forall|i: int| from <= i < ls@.len() ==> st.layout@.len() <= (#[trigger] ls@[i]).layout@.len(),
            ref_views(out@) == base + compat_in(*tcx, st.layout@, views(ls@).subrange(from as int, j as int)),
        decreases ls@.len() - j,
    {
        assert(views(ls@).subrange(from as int, j + 1).drop_last() =~= views(ls@).subrange(from as int, j as int));
        assert(views(ls@).subrange(from as int, j + 1).last() == ls@[j as int]@);
        let ghost before = out@;
        if is_layout_compatible(tcx, st, &ls[j]) {
            out.push(&ls[j]);
            assert(ref_views(out@) =~= ref_views(before).push(ls@[j as int]@));
        }
        j = j + 1;
    }
}

/// The structs that struct `si` of group `gi` may be confused with (see
/// `compat_list`).
fn compatible_for<'b>(tcx: &Tcx, groups: &'b Vec<(usize, Vec<StructDefLayout>)>, gi: usize, si: usize) -> (r: Vec<&'b StructDefLayout>)
    requires
        gi < groups@.len(),
        si < groups@[gi as int].1@.len(),
        forall|a: int, b: int| 0 <= a < b < groups@.len() ==> groups@[a].0 < groups@[b].0,
        forall|g: int, i: int| 0 <= g < groups@.len() && 0 <= i < groups@[g].1@.len() ==> (#[trigger] groups@[g].1@[i]).layout@.len() == groups@[g].0,
    ensures
        ref_views(r@) == compat_list(*tcx, groups_view(groups@), gi as int, si as int),
{
    let ghost gv = groups_view(groups@);
    let n_groups = groups.len();
    let structs = &groups[gi].1;
    let n_structs = structs.len();
    let st = &structs[si];
    let mut compatible: Vec<&StructDefLayout> = Vec::new();
    compatible.push(st);
    assert(gv[gi as int].1 == views(structs@));
    assert(ref_views(compatible@) =~= seq![gv[gi as int].1[si as int]]);
    push_compatible(tcx, st, structs.as_slice(), si + 1, &mut compatible);
    let ghost after_same = ref_views(compatible@);
    let mut g2: usize = gi + 1;
    assert(larger_compat(*tcx, st.layout@, gv, gi + 1, gi + 1) =~= Seq::<StructDefLayoutView>::empty());
    while g2 < groups.len()
        invariant
            gi < g2 <= groups@.len(),
            gv == groups_view(groups@),
            st.layout@.len() == groups@[gi as int].0,
            forall|a: int, b: int| 0 <= a < b < groups@.len() ==> groups@[a].0 < groups@[b].0,
            forall|g: int, i: int| 0 <= g < groups@.len() && 0 <= i < groups@[g].1@.len() ==> (#[trigger] groups@[g].1@[i]).layout@.len() == groups@[g].0,
            ref_views(compatible@) == after_same + larger_compat(*tcx, st.layout@, gv, gi + 1, g2 as int),
        decreases groups@.len() - g2,
    {
        let larger = &groups[g2].1;
        assert(gv[g2 as int].1 == views(larger@));
        assert(views(larger@).subrange(0, larger@.len() as int) =~= views(larger@));
        push_compatible(tcx, st, larger.as_slice(), 0, &mut compatible);
        g2 = g2 + 1;
    }
    assert(ref_views(compatible@) =~= compat_list(*tcx, gv, gi as int, si as int));
    compatible
}

/// The paths of the functions.
fn def_paths(tcx: &Tcx, ids: &Vec<DefId>) -> (r: Vec<String>)
    ensures
        r@.map_values(|s: String| s@) == ids@.map_values(|d: DefId| def_path(*tcx, d)),
{
    let mut r: Vec<String> = Vec::new();
    let mut i: usize = 0;
    while i < ids.len()
        invariant
            i <= ids@.len(),
            r@.map_values(|s: String| s@) == ids@.subrange(0, i as int).map_values(|d: DefId| def_path(*tcx, d)),
        decreases ids@.len() - i,
    {
        let ghost before = r@;
        r.push(tcx.def_path_str(ids[i]));
        assert(r@.map_values(|s: String| s@) =~= before.map_values(|s: String| s@).push(def_path(*tcx, ids@[i as int])));
        assert(ids@.subrange(0, i + 1).map_values(|d: DefId| def_path(*tcx, d)) =~= ids@.subrange(0, i as int).map_values(|d: DefId| def_path(*tcx, d)).push(def_path(*tcx, ids@[i as int])));
        i = i + 1;
    }
    assert(ids@.subrange(0, ids@.len() as int) =~= ids@);
    r
}

/// The crate's structs with at least one field, with their layouts.
pub open spec fn crate_layouts(tcx: Tcx) -> Seq<StructDefLayoutView> {
    let all = mod_struct_types(tcx, tcx.struct_items@.len() as int);
    layouts_of(tcx, with_fields(tcx, all, all.len() as int))
}

/// Reports the sets of structs that may be confused when a function
/// deserializes into one of them (see `finding_at`): for each struct, in
/// order of field count and then of definition, a finding of type
/// confusion whose location is the list of the functions and whose code is
/// the source of the structs.
pub fn check_confusion_types(tcx: &Tcx, report: &mut crate::reporter::Report)
    requires
        crate::reporter::report_wf(*old(report)),
    ensures
        crate::reporter::report_grows(*old(report), *final(report)),
        exists|gv: Seq<(usize, Seq<StructDefLayoutView>)>|
            is_grouping(crate_layouts(*tcx), gv) && confusions_recorded(
                *old(report),
                *final(report),
                findings_before(*tcx, gv, gv.len() as int, 0),
            ),
{
    let all_structs = get_mod_struct_types(tcx);
    let all_types = keep_with_fields(tcx, &all_structs);
    let groups = group_layouts(tcx, all_types.as_slice());
    let ghost gv = groups_view(groups@);
    let ghost lv = crate_layouts(*tcx);
    proof {
        assert forall|g: int, i: int| 0 <= g < groups@.len() && 0 <= i < groups@[g].1@.len() implies (#[trigger] groups@[g].1@[i]).layout@.len() == groups@[g].0 by {
            assert(gv[g] == (groups@[g].0, views(groups@[g].1@)));
            lemma_with_len_members(lv, groups@[g].0 as nat);
            assert(views(groups@[g].1@)[i] == groups@[g].1@[i]@);
        }
    }
    proof {
        assert forall|a: int, b: int| 0 <= a < b < groups@.len() implies groups@[a].0 < groups@[b].0 by {
            assert(gv[a].0 == groups@[a].0 && gv[b].0 == groups@[b].0);
        }
    }
    proof {
        lemma_recorded_empty(*old(report));
    }
    let mut gi: usize = 0;
    while gi < groups.len()
        invariant
            gi <= groups@.len(),
            gv == groups_view(groups@),
            forall|a: int, b: int| 0 <= a < b < groups@.len() ==> groups@[a].0 < groups@[b].0,
            is_grouping(lv, gv),
            forall|g: int, i: int| 0 <= g < groups@.len() && 0 <= i < groups@[g].1@.len() ==> (#[trigger] groups@[g].1@[i]).layout@.len() == groups@[g].0,
            crate::reporter::report_grows(*old(report), *report),
            confusions_recorded(*old(report), *report, findings_before(*tcx, gv, gi as int, 0)),
        decreases groups@.len() - gi,
    {
        let structs = &groups[gi].1;
        let mut si: usize = 0;
        while si < structs.len()
            invariant
                gi < groups@.len(),
                si <= structs@.len(),
                *structs == groups@[gi as int].1,
                gv == groups_view(groups@),
                forall|a: int, b: int| 0 <= a < b < groups@.len() ==> groups@[a].0 < groups@[b].0,
                is_grouping(lv, gv),
                forall|g: int, i: int| 0 <= g < groups@.len() && 0 <= i < groups@[g].1@.len() ==> (#[trigger] groups@[g].1@[i]).layout@.len() == groups@[g].0,
                crate::reporter::report_grows(*old(report), *report),
                confusions_recorded(*old(report), *report, findings_before(*tcx, gv, gi as int, si as int)),
            decreases structs@.len() - si,
        {
            let ghost prev = findings_before(*tcx, gv, gi as int, si as int);
            let ghost before = *report;
            let compatible = compatible_for(tcx, &groups, gi, si);
            let ghost c = ref_views(compatible@);
            assert(struct_ids(compatible@) =~= c.map_values(|x: StructDefLayoutView| x.struct_def));
            assert(compatible@.map_values(|d: &StructDefLayout| d.span) =~= c.map_values(|x: StructDefLayoutView| x.span));
            if compatible.len() >= 2 {
                let used_in = check_uses(tcx, compatible.as_slice());
                if used_in.len() > 0 {
                    let names = def_paths(tcx, &used_in);
                    let func_list = crate::strs::join_strings(&names, ", ");
                    let code = crate::source_info::get_type_defs_src(tcx, compatible.as_slice());
                    let ghost f = (func_list@, code@);
                    report.new_bug(
                        crate::reporter::VulnerabilityType::TypeConfusion,
                        String::from_str("Critical"),
                        func_list,
                        code,
                        String::new(),
                        String::from_str("UnResolved"),
                        String::from_str("GitHub Link to be added."),
                        None,
                        None,
                        None,
                    );
                    proof {
                        assert(finding_at(*tcx, gv, gi as int, si as int) == Some(f));
                        assert(prev.push(f).drop_last() =~= prev);
                        assert(findings_before(*tcx, gv, gi as int, si + 1) == prev.push(f));
                        assert(confusions_recorded(*old(report), before, prev.push(f).drop_last()));
                        assert(crate::reporter::bug_recorded(
                            before,
                            *report,
                            crate::reporter::VulnerabilityType::TypeConfusion,
                            "Critical"@,
                            f.0,
                            f.1,
                            Seq::empty(),
                            "UnResolved"@,
                            "GitHub Link to be added."@,
                            Seq::empty(),
                            Seq::empty(),
                            Seq::empty(),
                        ));
                        assert(confusion_step(before, *report, f));
                        lemma_recorded_push(*old(report), before, *report, prev, f);
                    }
                } else {
                    assert(findings_before(*tcx, gv, gi as int, si + 1) == prev);
                }
            } else {
                assert(findings_before(*tcx, gv, gi as int, si + 1) == prev);
            }
            si = si + 1;
        }
        assert(gv[gi as int].1.len() == structs@.len());
        assert(findings_before(*tcx, gv, gi + 1, 0) == findings_before(*tcx, gv, gi as int, structs@.len() as int));
        gi = gi + 1;
    }
}

/// Every struct's fields agree in size with its own.
pub proof fn law_layout_compatible_reflexive(tcx: Tcx, l: Seq<u32>)
    ensures
        layout_compatible(tcx, l, l),
{
}

/// Of two layouts with the same number of fields, each is compatible with
/// the other or neither is.
pub proof fn law_layout_compatible_symmetric(tcx: Tcx, a: Seq<u32>, b: Seq<u32>)
    requires
        a.len() == b.len(),
    ensures
        layout_compatible(tcx, a, b) == layout_compatible(tcx, b, a),
{
    if layout_compatible(tcx, a, b) {
        assert forall|i: int| 0 <= i < b.len() implies field_sizes_agree(tcx, #[trigger] b[i], a[i]) by {
            assert(field_sizes_agree(tcx, a[i], b[i]));
        }
    }
    if layout_compatible(tcx, b, a) {
        assert forall|i: int| 0 <= i < a.len() implies field_sizes_agree(tcx, #[trigger] a[i], b[i]) by {
            assert(field_sizes_agree(tcx, b[i], a[i]));
        }
    }
}

} // verus!
