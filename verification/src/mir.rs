//! A plain-data model of the compiler's mid-level IR: the places, operands,
//! statements and bodies that the analyses read, and the context that maps
//! definition ids to paths, types and bodies.

use vstd::prelude::*;

verus! {

/// A definition id (an index into the context's tables).
pub type DefId = u32;

/// One projection of a place.
#[derive(Clone, Copy, Debug, PartialEq, Eq, Hash)]
pub enum ProjElem {
    Deref,
    /// Field number `field`, whose type is the type with id `ty`.
    Field { field: u32, ty: u32 },
    Index { local: u32 },
    ConstantIndex { offset: u64, min_length: u64, from_end: bool },
    Subslice { from: u64, to: u64, from_end: bool },
    /// Downcast to an enum variant, with the variant's name (a symbol id) if any.
    Downcast { name: Option<u32>, variant: u32 },
}

/// A place: a local and a list of projections.
#[derive(Clone, Debug, PartialEq, Eq, Hash)]
pub struct Place {
    pub local: u32,
    pub projection: Vec<ProjElem>,
}

/// The mathematical view of a place.
pub struct PlaceView {
    pub local: u32,
    pub projection: Seq<ProjElem>,
}

impl View for Place {
    type V = PlaceView;

    open spec fn view(&self) -> PlaceView {
        PlaceView { local: self.local, projection: self.projection@ }
    }
}

/// A constant operand.
#[derive(Clone, Debug)]
pub struct Constant {
    /// The constant's type (a type id).
    pub ty: u32,
    /// The interned literal (equal literals have equal ids).
    pub literal: u32,
    /// The constant as the compiler displays it.
    pub display: String,
    /// The constant operand as the compiler prints it for debugging.
    pub debug: String,
    /// For a function item, the function that the call resolves to in the
    /// calling body's environment, if it resolves.
    pub resolved: Option<DefId>,
}

#[derive(Clone, Debug)]
pub enum Operand {
    Copy(Place),
    Move(Place),
    Constant(Constant),
}

/// The mathematical view of an operand.
pub enum OperandView {
    Copy(PlaceView),
    Move(PlaceView),
    Constant(Constant),
}

impl View for Operand {
    type V = OperandView;

    open spec fn view(&self) -> OperandView {
        match self {
            Operand::Copy(p) => OperandView::Copy(p@),
            Operand::Move(p) => OperandView::Move(p@),
            Operand::Constant(c) => OperandView::Constant(*c),
        }
    }
}

#[derive(Clone, Copy, Debug, PartialEq, Eq)]
pub enum BinOp {
    Add,
    Sub,
    Mul,
    Div,
    Rem,
    BitXor,
    BitAnd,
    BitOr,
    Shl,
    Shr,
    Eq,
    Lt,
    Le,
    Ne,
    Ge,
    Gt,
    Offset,
}

#[derive(Clone, Debug)]
pub enum Rvalue {
    Use(Operand),
    Ref(Place),
    Cast(Operand, u32),
    BinaryOp(BinOp, Operand, Operand),
    CheckedBinaryOp(BinOp, Operand, Operand),
    UnaryOp(Operand),
    Aggregate(Vec<Operand>),
    Other,
}

#[derive(Clone, Debug)]
pub enum StatementKind {
    Assign(Place, Rvalue),
    Other,
}

#[derive(Clone, Debug)]
pub struct Statement {
    pub kind: StatementKind,
    /// The statement's span (a span id).
    pub span: u32,
}

#[derive(Clone, Debug)]
pub enum TerminatorKind {
    Call { func: Operand, args: Vec<Operand>, destination: Option<(Place, usize)>, fn_span: u32 },
    SwitchInt { discr: Operand },
    Other,
}

#[derive(Clone, Debug)]
pub struct Terminator {
    pub kind: TerminatorKind,
    pub span: u32,
}

#[derive(Clone, Debug)]
pub struct BasicBlockData {
    pub statements: Vec<Statement>,
    pub terminator: Option<Terminator>,
    /// The blocks that jump to this one.
    pub predecessors: Vec<usize>,
}

/// A position in a body: a statement of a block, or its terminator when the
/// index is the number of statements.
#[derive(Clone, Copy, Debug, PartialEq, Eq)]
pub struct Location {
    pub block: usize,
    pub statement_index: usize,
}

/// Debug information of a user variable.
#[derive(Clone, Debug)]
pub struct VarDebugInfo {
    /// The variable's name (a symbol id).
    pub name: u32,
    /// The place that holds the variable, when it lives in one.
    pub place: Option<Place>,
    pub span: u32,
}

/// A function body.
#[derive(Clone, Debug)]
pub struct Body {
    pub def_id: DefId,
    pub arg_count: usize,
    /// The type (a type id) of each local; local 0 is the return place.
    pub local_decls: Vec<u32>,
    pub var_debug_info: Vec<VarDebugInfo>,
    pub basic_blocks: Vec<BasicBlockData>,
    /// The blocks in reverse postorder.
    pub rpo: Vec<usize>,
    pub span: u32,
    /// Whether the body is that of a closure (its definition has a closure type).
    pub is_closure: bool,
    /// Whether each local is a variable that the user declared.
    pub user_vars: Vec<bool>,
}

/// The shape of a type.
#[derive(Clone, Debug)]
pub enum TyKind {
    /// An algebraic data type with its definition and type arguments (type ids).
    Adt { did: DefId, substs: Vec<u32> },
    Ref(u32),
    Slice(u32),
    Array(u32),
    Tuple(Vec<u32>),
    /// An integer or floating-point type.
    Numeric,
    Closure(DefId),
    FnDef(DefId),
    Other,
}

#[derive(Clone, Debug)]
pub struct TyDesc {
    pub kind: TyKind,
    /// The type as the compiler displays it.
    pub display: String,
    /// The size of the type's layout, when the layout is known.
    pub layout_size: Option<u64>,
}

/// The fields of an algebraic data type, in declaration order.
#[derive(Clone, Debug)]
pub struct AdtDef {
    /// Field names (symbol ids).
    pub field_names: Vec<u32>,
    /// Field types (type ids).
    pub field_tys: Vec<u32>,
    /// Whether the type is a struct.
    pub is_struct: bool,
    /// The span of the definition.
    pub span: u32,
}

/// What the source map knows of a span.
#[derive(Clone, Debug)]
pub struct SpanInfo {
    /// The span as a diagnostic location ("file:line:col: line:col").
    pub diagnostic: String,
    /// The source text of the span, when it is available.
    pub snippet: Option<String>,
    /// The local path of the file that holds the start of the span.
    pub lo_file: Option<String>,
    /// The local path of the file that holds the end of the span.
    pub hi_file: Option<String>,
    /// Whether start and end lie in the same file.
    pub same_file: bool,
    /// The lines of the span, when the source map can look them up.
    pub lines: Option<SpanLines>,
}

/// The lines that a span covers, in the file that holds its start.
#[derive(Clone, Debug)]
pub struct SpanLines {
    /// The line of the span's start (0-based).
    pub lo_line: usize,
    /// The line of the span's end (0-based).
    pub hi_line: usize,
    /// The text of each line of the file, without its line break.
    pub file_lines: Vec<String>,
}

/// An implementation of a trait.
#[derive(Clone, Debug)]
pub struct TraitImpl {
    /// The implemented trait.
    pub trait_id: DefId,
    /// The definition of the implementing type, when it is an algebraic data type.
    pub self_adt: Option<DefId>,
    /// The associated items: name (a symbol id) and definition.
    pub items: Vec<(u32, DefId)>,
}

/// The analysed crate: definition paths, symbols, types, bodies and spans.
#[derive(Clone, Debug)]
pub struct Tcx {
    /// The path of each definition.
    pub def_paths: Vec<String>,
    pub symbols: Vec<String>,
    pub types: Vec<TyDesc>,
    /// The fields of the definition, where it is an algebraic data type.
    pub adts: Vec<Option<AdtDef>>,
    /// The optimized body of the definition, where it is available.
    pub bodies: Vec<Option<Body>>,
    /// The function items that have a body, in the order of the crate's items.
    pub fn_items: Vec<DefId>,
    /// The local struct definitions of the crate, in item order.
    pub struct_items: Vec<DefId>,
    pub spans: Vec<SpanInfo>,
    /// The unit type.
    pub unit_ty: u32,
    /// The boolean type.
    pub bool_ty: u32,
    /// All traits known to the crate.
    pub all_traits: Vec<DefId>,
    /// The trait implementations known to the crate.
    pub trait_impls: Vec<TraitImpl>,
}

// ---------------------------------------------------------------------------
// Spec views
// ---------------------------------------------------------------------------

/// The path of definition `d` (empty when `d` is unknown).
pub open spec fn def_path(tcx: Tcx, d: DefId) -> Seq<char> {
    if (d as int) < tcx.def_paths@.len() { tcx.def_paths@[d as int]@ } else { Seq::empty() }
}

/// The text of symbol `s` (empty when unknown).
pub open spec fn symbol(tcx: Tcx, s: u32) -> Seq<char> {
    if (s as int) < tcx.symbols@.len() { tcx.symbols@[s as int]@ } else { Seq::empty() }
}

/// The type with id `t`, when it exists.
pub open spec fn ty_of(tcx: Tcx, t: u32) -> Option<TyDesc> {
    if (t as int) < tcx.types@.len() { Some(tcx.types@[t as int]) } else { None }
}

/// The type with id `t` as the compiler displays it (empty when unknown).
pub open spec fn ty_display(tcx: Tcx, t: u32) -> Seq<char> {
    match ty_of(tcx, t) {
        Some(d) => d.display@,
        None => Seq::empty(),
    }
}

/// The body of definition `d`, when it is available.
pub open spec fn body_of(tcx: Tcx, d: DefId) -> Option<Body> {
    if (d as int) < tcx.bodies@.len() { tcx.bodies@[d as int] } else { None }
}

/// The fields of definition `d`, when it is an algebraic data type.
pub open spec fn adt_of(tcx: Tcx, d: DefId) -> Option<AdtDef> {
    if (d as int) < tcx.adts@.len() { tcx.adts@[d as int] } else { None }
}

/// The span information of span `s`, when it exists.
pub open spec fn span_of(tcx: Tcx, s: u32) -> Option<SpanInfo> {
    if (s as int) < tcx.spans@.len() { Some(tcx.spans@[s as int]) } else { None }
}

/// Removes all references around type `t` (at most `fuel` of them).
pub open spec fn peel_refs_fuel(tcx: Tcx, t: u32, fuel: nat) -> u32
    decreases fuel,
{
    if fuel == 0 {
        t
    } else {
        match ty_of(tcx, t) {
            Some(d) => match d.kind {
                TyKind::Ref(inner) => peel_refs_fuel(tcx, inner, (fuel - 1) as nat),
                _ => t,
            },
            None => t,
        }
    }
}

/// Removes all references around type `t`. The table is finite, so a chain
/// of references is at most as long as the table.
pub open spec fn peel_refs(tcx: Tcx, t: u32) -> u32 {
    peel_refs_fuel(tcx, t, tcx.types@.len())
}

/// The definition of `t` when it is an algebraic data type.
pub open spec fn adt_did(tcx: Tcx, t: u32) -> Option<DefId> {
    match ty_of(tcx, t) {
        Some(d) => match d.kind {
            TyKind::Adt { did, .. } => Some(did),
            _ => None,
        },
        None => None,
    }
}

/// The path of the algebraic data type of `t` (after peeling references).
pub open spec fn peeled_adt_path(tcx: Tcx, t: u32) -> Option<Seq<char>> {
    match adt_did(tcx, peel_refs(tcx, t)) {
        Some(did) => Some(def_path(tcx, did)),
        None => None,
    }
}

/// The type of a place after applying the first `n` projections; `None` when
/// a projection does not fit the type it is applied to.
pub open spec fn place_ty_prefix(tcx: Tcx, body: Body, place: PlaceView, n: int) -> Option<u32>
    decreases n,
{
    if n <= 0 {
        if (place.local as int) < body.local_decls@.len() {
            Some(body.local_decls@[place.local as int])
        } else {
            None
        }
    } else {
        match place_ty_prefix(tcx, body, place, n - 1) {
            None => None,
            Some(base) => {
                let elem = place.projection[n - 1];
                match elem {
                    ProjElem::Field { ty, .. } => Some(ty),
                    ProjElem::Deref => match ty_of(tcx, base) {
                        Some(d) => match d.kind {
                            TyKind::Ref(inner) => Some(inner),
                            TyKind::Adt { substs, .. } => if substs@.len() > 0 {
                                Some(substs@[0])
                            } else {
                                None
                            },
                            _ => None,
                        },
                        None => None,
                    },
                    ProjElem::Index { .. } | ProjElem::ConstantIndex { .. } => match ty_of(tcx, base) {
                        Some(d) => match d.kind {
                            TyKind::Slice(e) => Some(e),
                            TyKind::Array(e) => Some(e),
                            _ => None,
                        },
                        None => None,
                    },
                    ProjElem::Subslice { .. } | ProjElem::Downcast { .. } => Some(base),
                }
            },
        }
    }
}

/// The type of a place.
pub open spec fn place_ty(tcx: Tcx, body: Body, place: PlaceView) -> Option<u32> {
    place_ty_prefix(tcx, body, place, place.projection.len() as int)
}

/// The place with the last projection removed, and that projection.
pub open spec fn last_projection(place: PlaceView) -> Option<(PlaceView, ProjElem)> {
    if place.projection.len() == 0 {
        None
    } else {
        Some((
            PlaceView { local: place.local, projection: place.projection.drop_last() },
            place.projection.last(),
        ))
    }
}

/// Whether the local is one of the body's parameters.
pub open spec fn is_arg_local(body: Body, local: u32) -> bool {
    1 <= local && local <= body.arg_count
}

// ---------------------------------------------------------------------------
// Executable queries
// ---------------------------------------------------------------------------

impl Place {
    /// A place that is just a local.
    pub fn from_local(local: u32) -> (r: Place)
        ensures
            r.local == local,
            r.projection@ == Seq::<ProjElem>::empty(),
    {
        Place { local, projection: Vec::new() }
    }

    /// A copy of the place.
    pub fn copy_place(&self) -> (r: Place)
        ensures
            r@ == self@,
    {
        let mut projection: Vec<ProjElem> = Vec::new();
        let mut i: usize = 0;
        while i < self.projection.len()
            invariant
                i <= self.projection@.len(),
                projection@ == self.projection@.subrange(0, i as int),
            decreases self.projection@.len() - i,
        {
            projection.push(self.projection[i]);
            i = i + 1;
        }
        assert(projection@ =~= self.projection@);
        Place { local: self.local, projection }
    }

    /// The place with its last projection removed, and that projection.
    pub fn last_projection(&self) -> (r: Option<(Place, ProjElem)>)
        ensures
            match r {
                Some((b, e)) => last_projection(self@) == Some((b@, e)),
                None => last_projection(self@).is_none(),
            },
    {
        let n = self.projection.len();
        if n == 0 {
            return None;
        }
        let mut projection: Vec<ProjElem> = Vec::new();
        let mut i: usize = 0;
        while i < n - 1
            invariant
                n == self.projection@.len(),
                n > 0,
                i <= n - 1,
                projection@ == self.projection@.subrange(0, i as int),
            decreases n - 1 - i,
        {
            projection.push(self.projection[i]);
            i = i + 1;
        }
        assert(projection@ =~= self.projection@.drop_last());
        Some((Place { local: self.local, projection }, self.projection[n - 1]))
    }
}

/// Equality of projection elements.
pub fn proj_elem_eq(a: &ProjElem, b: &ProjElem) -> (r: bool)
    ensures
        r == (*a == *b),
{
    match (a, b) {
        (ProjElem::Deref, ProjElem::Deref) => true,
        (ProjElem::Field { field: f1, ty: t1 }, ProjElem::Field { field: f2, ty: t2 }) => *f1 == *f2
            && *t1 == *t2,
        (ProjElem::Index { local: l1 }, ProjElem::Index { local: l2 }) => *l1 == *l2,
        (
            ProjElem::ConstantIndex { offset: o1, min_length: m1, from_end: e1 },
            ProjElem::ConstantIndex { offset: o2, min_length: m2, from_end: e2 },
        ) => *o1 == *o2 && *m1 == *m2 && *e1 == *e2,
        (
            ProjElem::Subslice { from: f1, to: t1, from_end: e1 },
            ProjElem::Subslice { from: f2, to: t2, from_end: e2 },
        ) => *f1 == *f2 && *t1 == *t2 && *e1 == *e2,
        (
            ProjElem::Downcast { name: n1, variant: v1 },
            ProjElem::Downcast { name: n2, variant: v2 },
        ) => {
            let same_name = match (n1, n2) {
                (Some(x), Some(y)) => *x == *y,
                (None, None) => true,
                _ => false,
            };
            same_name && *v1 == *v2
        },
        _ => false,
    }
}

/// Equality of places.
pub fn place_eq(a: &Place, b: &Place) -> (r: bool)
    ensures
        r == (a@ == b@),
{
    if a.local != b.local || a.projection.len() != b.projection.len() {
        return false;
    }
    let mut i: usize = 0;
    while i < a.projection.len()
        invariant
            a.projection@.len() == b.projection@.len(),
            i <= a.projection@.len(),
            forall|k: int| 0 <= k < i ==> a.projection@[k] == b.projection@[k],
        decreases a.projection@.len() - i,
    {
        if !proj_elem_eq(&a.projection[i], &b.projection[i]) {
            return false;
        }
        i = i + 1;
    }
    assert(a.projection@ =~= b.projection@);
    true
}

impl Operand {
    /// A copy of the operand.
    pub fn copy(&self) -> (r: Operand)
        ensures
            r@ == self@,
    {
        match self {
            Operand::Copy(p) => Operand::Copy(p.copy_place()),
            Operand::Move(p) => Operand::Move(p.copy_place()),
            Operand::Constant(c) => Operand::Constant(c.copy()),
        }
    }
}

impl Constant {
    /// A copy of the constant.
    pub fn copy(&self) -> (r: Constant)
        ensures
            r == *self,
    {
        Constant {
            ty: self.ty,
            literal: self.literal,
            display: self.display.clone(),
            debug: self.debug.clone(),
            resolved: self.resolved,
        }
    }
}

impl Tcx {
    /// The path of definition `d` (empty when `d` is unknown).
    pub fn def_path_str(&self, d: DefId) -> (r: String)
        ensures
            r@ == def_path(*self, d),
    {
        if (d as usize) < self.def_paths.len() {
            self.def_paths[d as usize].clone()
        } else {
            String::new()
        }
    }

    /// The text of symbol `s` (empty when unknown).
    pub fn symbol_str(&self, s: u32) -> (r: String)
        ensures
            r@ == symbol(*self, s),
    {
        if (s as usize) < self.symbols.len() {
            self.symbols[s as usize].clone()
        } else {
            String::new()
        }
    }

    /// The type with id `t`, when it exists.
    pub fn ty(&self, t: u32) -> (r: Option<&TyDesc>)
        ensures
            r == match ty_of(*self, t) {
                Some(d) => Some(&d),
                None => None::<&TyDesc>,
            },
    {
        if (t as usize) < self.types.len() {
            Some(&self.types[t as usize])
        } else {
            None
        }
    }

    /// The body of definition `d`, when it is available.
    pub fn optimized_mir(&self, d: DefId) -> (r: Option<&Body>)
        ensures
            r == match body_of(*self, d) {
                Some(b) => Some(&b),
                None => None::<&Body>,
            },
    {
        if (d as usize) < self.bodies.len() {
            match &self.bodies[d as usize] {
                Some(b) => Some(b),
                None => None,
            }
        } else {
            None
        }
    }

    /// The fields of definition `d`, when it is an algebraic data type.
    pub fn adt_def(&self, d: DefId) -> (r: Option<&AdtDef>)
        ensures
            r == match adt_of(*self, d) {
                Some(a) => Some(&a),
                None => None::<&AdtDef>,
            },
    {
        if (d as usize) < self.adts.len() {
            match &self.adts[d as usize] {
                Some(a) => Some(a),
                None => None,
            }
        } else {
            None
        }
    }

    /// Removes all references around type `t`.
    pub fn peel_refs(&self, t: u32) -> (r: u32)
        ensures
            r == peel_refs(*self, t),
    {
        let n = self.types.len();
        let mut cur = t;
        let mut fuel: usize = n;
        while fuel > 0
            invariant
                n == self.types@.len(),
                fuel <= n,
                peel_refs_fuel(*self, cur, fuel as nat) == peel_refs(*self, t),
            decreases fuel,
        {
            if (cur as usize) < n {
                match &self.types[cur as usize].kind {
                    TyKind::Ref(inner) => {
                        cur = *inner;
                        fuel = fuel - 1;
                    },
                    _ => {
                        return cur;
                    },
                }
            } else {
                return cur;
            }
        }
        cur
    }

    /// The definition of `t` when it is an algebraic data type.
    pub fn adt_did(&self, t: u32) -> (r: Option<DefId>)
        ensures
            r == adt_did(*self, t),
    {
        match self.ty(t) {
            Some(d) => match &d.kind {
                TyKind::Adt { did, .. } => Some(*did),
                _ => None,
            },
            None => None,
        }
    }

    /// The path of the algebraic data type of `t`, after peeling references.
    pub fn peeled_adt_path(&self, t: u32) -> (r: Option<String>)
        ensures
            match r {
                Some(s) => peeled_adt_path(*self, t) == Some(s@),
                None => peeled_adt_path(*self, t).is_none(),
            },
    {
        let p = self.peel_refs(t);
        match self.adt_did(p) {
            Some(did) => Some(self.def_path_str(did)),
            None => None,
        }
    }
}

} // verus!

verus! {

/// The type of a place.
pub fn place_ty_exec(tcx: &Tcx, body: &Body, place: &Place) -> (r: Option<u32>)
    ensures
        r == place_ty(*tcx, *body, place@),
{
    let mut cur: Option<u32> = if (place.local as usize) < body.local_decls.len() {
        Some(body.local_decls[place.local as usize])
    } else {
        None
    };
    let mut i: usize = 0;
    while i < place.projection.len()
        invariant
            i <= place.projection@.len(),
            cur == place_ty_prefix(*tcx, *body, place@, i as int),
        decreases place.projection@.len() - i,
    {
        let next = match cur {
            None => None,
            Some(base) => match &place.projection[i] {
                ProjElem::Field { ty, .. } => Some(*ty),
                ProjElem::Deref => match tcx.ty(base) {
                    Some(d) => match &d.kind {
                        TyKind::Ref(inner) => Some(*inner),
                        TyKind::Adt { substs, .. } => if substs.len() > 0 {
                            Some(substs[0])
                        } else {
                            None
                        },
                        _ => None,
                    },
                    None => None,
                },
                ProjElem::Index { .. } | ProjElem::ConstantIndex { .. } => match tcx.ty(base) {
                    Some(d) => match &d.kind {
                        TyKind::Slice(e) => Some(*e),
                        TyKind::Array(e) => Some(*e),
                        _ => None,
                    },
                    None => None,
                },
                ProjElem::Subslice { .. } | ProjElem::Downcast { .. } => Some(base),
            },
        };
        cur = next;
        i = i + 1;
    }
    cur
}

} // verus!
