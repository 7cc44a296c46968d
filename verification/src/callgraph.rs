//! The graph of a body used to find signer checks: how each place's value
//! comes from other places and constants, and whether a signer account is
//! checked, either by Anchor's `Signer` accounts or by a function that
//! receives an account named like a signer and branches on its
//! `is_signer` field.

use vstd::prelude::*;
use petgraph::graph::{DiGraph, NodeIndex};
use petgraph::visit::{depth_first_search, Control, DfsEvent, EdgeFiltered, EdgeRef};
use crate::collections::{id_index_contents, place_index_contents, IdIndex, PlaceIndex};
use crate::conf::{check_is_signer_name, contains_any, spec_is_signer_vars, strings_view};
use crate::dd::{
    copy_dbg_info, dbg_entries_in_range, dbg_map, get_dbg_info_mapping, lemma_dbg_map_in_range,
    DataDepsGraph, DdNode,
};
use crate::mir::{
    body_of, def_path, symbol, ty_display, ty_of, BasicBlockData, Body, Constant, DefId, Location, Operand, Place,
    PlaceView, ProjElem, Rvalue, StatementKind, Tcx, Terminator, TerminatorKind, TyKind, VarDebugInfo,
};
use crate::strs::{seq_contains, str_contains, str_eq};
use crate::wpa::lemma_distinct_ids_bounded;

verus! {

/// A node of the call graph.
#[derive(Clone, Debug)]
pub enum CallNode {
    /// A place that is not a local, such as a field of a local.
    PartialFieldRef { base: Place },
    /// A local of a body, with its type, its debug-information entry (1-based,
    /// 0 for none) and the body's argument count.
    LocalDecl { local: u32, ty: u32, dbg_info: usize, arg_count: usize },
    /// A constant operand.
    Constant { val: Constant },
    /// A function, with its argument count.
    FunctionNode { arg_count: usize },
}

/// How a node's value comes from another node's.
#[derive(Clone, Copy, Debug, PartialEq, Eq)]
pub enum CallEdge {
    /// A move or copy.
    Assign,
    /// A field access, with the field's index.
    FieldRef(u32),
    /// A reference.
    Ref,
    /// A projection other than a field access.
    IgnoredProjection,
    /// A cast.
    Cast,
}

/// Which user variables a search for sources passes over.
#[derive(Clone, Debug)]
pub enum HeuristicFilter {
    /// Passes over the variables with these names.
    NameFilter(Vec<String>),
    /// Passes over the variables whose type, as the compiler displays it,
    /// is one of these.
    TypeFilter(Vec<String>),
    /// Passes over the variables when the predicate holds (the predicate
    /// takes nothing, so it is held as its value).
    PredicateFilter(bool),
    NoFilter,
}

/// Whether the filter keeps a node as a source: a user variable is dropped
/// when a name filter names it, when a type filter names its type, or when
/// a predicate filter's predicate holds; everything else is kept.
pub open spec fn heuristic_keeps(h: HeuristicFilter, node: CallNode, dbg: Seq<VarDebugInfo>, tcx: Tcx) -> bool {
    match node {
        CallNode::LocalDecl { dbg_info, ty, .. } => if dbg_info > 0 {
            match h {
                HeuristicFilter::NameFilter(names) => !strings_view(names@).contains(
                    symbol(tcx, dbg[dbg_info - 1].name),
                ),
                HeuristicFilter::TypeFilter(tys) => !strings_view(tys@).contains(ty_display(tcx, ty)),
                HeuristicFilter::PredicateFilter(p) => !p,
                HeuristicFilter::NoFilter => true,
            }
        } else {
            true
        },
        _ => true,
    }
}

/// The node's debug-information entry, if it has one, lies within `n` entries.
pub open spec fn dbg_in_range(node: CallNode, n: nat) -> bool {
    match node {
        CallNode::LocalDecl { dbg_info, .. } => dbg_info <= n,
        _ => true,
    }
}

/// Whether one of the names is `name`.
fn names_contain(names: &Vec<String>, name: &String) -> (r: bool)
    ensures
        r == strings_view(names@).contains(name@),
{
    let mut i: usize = 0;
    while i < names.len()
        invariant
            i <= names@.len(),
            forall|j: int| 0 <= j < i ==> strings_view(names@)[j] != name@,
        decreases names@.len() - i,
    {
        if str_eq(names[i].as_str(), name.as_str()) {
            assert(strings_view(names@)[i as int] == name@);
            return true;
        }
        i = i + 1;
    }
    false
}

impl HeuristicFilter {
    /// Whether a node is kept as a source (see `heuristic_keeps`).
    pub fn filter(&self, node: &CallNode, var_dbg_info: &Vec<VarDebugInfo>, tcx: &Tcx) -> (r: bool)
        requires
            dbg_in_range(*node, var_dbg_info@.len()),
        ensures
            r == heuristic_keeps(*self, *node, var_dbg_info@, *tcx),
    {
        match node {
            CallNode::LocalDecl { dbg_info, ty, .. } => {
                if *dbg_info > 0 {
                    let info = &var_dbg_info[*dbg_info - 1];
                    match self {
                        HeuristicFilter::NameFilter(names) => {
                            let name = tcx.symbol_str(info.name);
                            !names_contain(names, &name)
                        },
                        HeuristicFilter::TypeFilter(tys) => match tcx.ty(*ty) {
                            Some(d) => !names_contain(tys, &d.display),
                            None => !names_contain(tys, &String::new()),
                        },
                        HeuristicFilter::PredicateFilter(p) => !*p,
                        HeuristicFilter::NoFilter => true,
                    }
                } else {
                    true
                }
            },
            _ => true,
        }
    }
}

/// The names that the filter of `assert_eq!` temporaries passes over.
pub open spec fn spec_assert_macro_names() -> Seq<Seq<char>> {
    seq!["left_val"@, "right_val"@]
}

/// The filter that passes over the temporaries of `assert_eq!`.
pub fn assert_macro_filter() -> (r: HeuristicFilter)
    ensures
        r matches HeuristicFilter::NameFilter(names) && strings_view(names@) == spec_assert_macro_names(),
{
    let names = vec![String::from_str("left_val"), String::from_str("right_val")];
    proof {
        reveal_strlit("left_val");
        reveal_strlit("right_val");
        assert(strings_view(names@) =~= spec_assert_macro_names());
    }
    HeuristicFilter::NameFilter(names)
}

// ---------------------------------------------------------------------------
// The graph, kept in a petgraph `DiGraph`
// ---------------------------------------------------------------------------

/// The nodes of a call graph, by index.
pub uninterp spec fn call_nodes(g: DiGraph<CallNode, CallEdge>) -> Seq<CallNode>;

/// The edges of a call graph, in the order they were added: source,
/// target and weight.
pub uninterp spec fn call_edges(g: DiGraph<CallNode, CallEdge>) -> Seq<(usize, usize, CallEdge)>;

/// `DiGraph::new`: an empty graph.
#[verifier::external_body]
fn call_graph_new() -> (g: DiGraph<CallNode, CallEdge>)
    ensures
        call_nodes(g).len() == 0,
        call_edges(g).len() == 0,
{
    DiGraph::new()
}

/// `Graph::node_count`.
#[verifier::external_body]
fn call_node_count(g: &DiGraph<CallNode, CallEdge>) -> (r: usize)
    ensures
        r == call_nodes(*g).len(),
{
    g.node_count()
}

/// `Graph::edge_count`.
#[verifier::external_body]
fn call_edge_count(g: &DiGraph<CallNode, CallEdge>) -> (r: usize)
    ensures
        r == call_edges(*g).len(),
{
    g.edge_count()
}

/// `Graph::add_node`: appends a node and returns its index (petgraph panics
/// once `u32::MAX` nodes are held).
#[verifier::external_body]
fn call_add_node(g: &mut DiGraph<CallNode, CallEdge>, n: CallNode) -> (r: usize)
    requires
        call_nodes(*old(g)).len() < 0xFFFF_FFFF,
    ensures
        r == call_nodes(*old(g)).len(),
        call_nodes(*final(g)) == call_nodes(*old(g)).push(n),
        call_edges(*final(g)) == call_edges(*old(g)),
{
    g.add_node(n).index()
}

/// `Graph::add_edge`: appends an edge between two existing nodes (petgraph
/// panics for a missing node, or once `u32::MAX` edges are held).
#[verifier::external_body]
fn call_add_edge(g: &mut DiGraph<CallNode, CallEdge>, a: usize, b: usize, e: CallEdge)
    requires
        a < call_nodes(*old(g)).len(),
        b < call_nodes(*old(g)).len(),
        call_edges(*old(g)).len() < 0xFFFF_FFFF,
    ensures
        call_nodes(*final(g)) == call_nodes(*old(g)),
        call_edges(*final(g)) == call_edges(*old(g)).push((a, b, e)),
{
    g.add_edge(NodeIndex::new(a), NodeIndex::new(b), e);
}

/// `Graph::node_weight`: the node at an index of the graph.
#[verifier::external_body]
fn call_node_weight(g: &DiGraph<CallNode, CallEdge>, i: usize) -> (r: Option<&CallNode>)
    requires
        i < call_nodes(*g).len(),
    ensures
        r == Some(&call_nodes(*g)[i as int]),
{
    g.node_weight(NodeIndex::new(i))
}

/// Whether a search for sources follows an edge: field accesses are
/// followed only when `pass_field` holds.
pub fn follows_call_edge(e: &CallEdge, pass_field: bool) -> (r: bool)
    ensures
        r == (pass_field || !(*e is FieldRef)),
{
    match e {
        CallEdge::FieldRef(_) => pass_field,
        _ => true,
    }
}

/// The node at which a depth-first search from `start`, over the edges that
/// `follows_call_edge` keeps, first reaches a marked node by a tree edge.
pub uninterp spec fn call_dfs_first(
    nodes: Seq<CallNode>,
    edges: Seq<(usize, usize, CallEdge)>,
    start: usize,
    pass_field: bool,
    marked: Seq<bool>,
) -> Option<usize>;

/// `petgraph::visit::depth_first_search` from `start` over the graph
/// filtered by `follows_call_edge`, stopping (`Control::Break`) at the first
/// tree edge whose target is marked. The contract claims that the answer is
/// a function of the graph, the start, the filter and the marks, and that
/// an answer is a marked node of the graph.
#[verifier::external_body]
fn call_dfs(g: &DiGraph<CallNode, CallEdge>, start: usize, pass_field: bool, marked: &Vec<bool>) -> (r: Option<usize>)
    requires
        start < call_nodes(*g).len(),
        marked@.len() == call_nodes(*g).len(),
    ensures
        r == call_dfs_first(call_nodes(*g), call_edges(*g), start, pass_field, marked@),
        r matches Some(v) ==> v < call_nodes(*g).len() && marked@[v as int],
{
    let mut goal = None;
    let fg = EdgeFiltered::from_fn(g, |e| follows_call_edge(e.weight(), pass_field));
    depth_first_search(&fg, Some(NodeIndex::new(start)), |ev| match ev {
        DfsEvent::TreeEdge(_, v) if marked[v.index()] => {
            goal = Some(v.index());
            Control::Break(v)
        },
        _ => Control::Continue,
    });
    goal
}

/// Whether a search for sources stops at a node: a user variable that the
/// filter keeps, a constant, or (when field accesses are not passed) a
/// partial field reference.
pub open spec fn is_goal(node: CallNode, pass_field: bool, h: HeuristicFilter, dbg: Seq<VarDebugInfo>, tcx: Tcx) -> bool {
    match node {
        CallNode::LocalDecl { dbg_info, .. } => dbg_info >= 1 && heuristic_keeps(h, node, dbg, tcx),
        CallNode::Constant { .. } => true,
        CallNode::PartialFieldRef { .. } => !pass_field,
        CallNode::FunctionNode { .. } => false,
    }
}

/// The call graph of a body.
pub struct CallGraph<'a> {
    pub tcx: &'a Tcx,
    pub g: DiGraph<CallNode, CallEdge>,
    pub place_dbg_info_map: PlaceIndex,
    pub var_dbg_info: Vec<VarDebugInfo>,
    pub heuristic: HeuristicFilter,
    pub local_decl_nodes: PlaceIndex,
    /// Nodes of places that are not locals.
    pub other_nodes: PlaceIndex,
    /// Nodes of constants, by literal.
    pub constant_nodes: IdIndex,
    /// The bodies being visited.
    pub visiting: Vec<DefId>,
    /// Whether a signer check was found.
    pub is_signer: bool,
    /// The call or variable that showed the signer.
    pub is_signer_var: String,
    /// Where the signer was shown.
    pub is_signer_span: Option<u32>,
    /// The data-source graph of the analysed body.
    pub ddg: DataDepsGraph<'a>,
    /// Whether a called function is being checked for a use of the signer.
    pub check_function: bool,
    /// The position of the signer among the arguments of that call.
    pub arg_posi: usize,
    /// Whether a signer account was passed to a call.
    pub has_signer: bool,
}

/// The state of the search for signer checks: whether a signer check
/// and a signer account were found, whether a signer span was recorded,
/// whether a called function is being checked and at which argument
/// position, and the bodies being visited.
pub struct SignerSearch {
    pub is_signer: bool,
    pub has_signer: bool,
    pub span: bool,
    pub check: bool,
    pub posi: usize,
    pub visiting: Seq<DefId>,
}

impl<'a> CallGraph<'a> {
    /// The graph's state of the search for signer checks.
    pub open spec fn sig_of(self) -> SignerSearch {
        SignerSearch {
            is_signer: self.is_signer,
            has_signer: self.has_signer,
            span: self.is_signer_span is Some,
            check: self.check_function,
            posi: self.arg_posi,
            visiting: self.visiting@,
        }
    }

    /// The nodes.
    pub closed spec fn nodes(self) -> Seq<CallNode> {
        call_nodes(self.g)
    }

    /// The edges, in the order they were added.
    pub closed spec fn edges(self) -> Seq<(usize, usize, CallEdge)> {
        call_edges(self.g)
    }

    /// The filter that a search for sources applies.
    pub closed spec fn heuristic(self) -> HeuristicFilter {
        self.heuristic
    }

    /// The node at which a search for the source of place `p` starts: the
    /// local's node, or the node of a place that is not a local.
    pub closed spec fn start_node(self, p: PlaceView) -> Option<usize> {
        if place_index_contents(self.local_decl_nodes).contains_key(p) {
            Some(place_index_contents(self.local_decl_nodes)[p])
        } else if place_index_contents(self.other_nodes).contains_key(p) {
            Some(place_index_contents(self.other_nodes)[p])
        } else {
            None
        }
    }

    /// The node of a constant literal, if the graph has one.
    pub closed spec fn constant_node(self, literal: u32) -> Option<usize> {
        if id_index_contents(self.constant_nodes).contains_key(literal) {
            Some(id_index_contents(self.constant_nodes)[literal])
        } else {
            None
        }
    }

    /// The nodes at which a search stops.
    pub closed spec fn marks(self, pass_field: bool) -> Seq<bool> {
        Seq::new(
            self.nodes().len(),
            |i: int| is_goal(self.nodes()[i], pass_field, self.heuristic, self.var_dbg_info@, *self.tcx),
        )
    }

    /// The source of a place: the first node at which a depth-first search
    /// from the place's node stops.
    pub open spec fn origin_of(self, p: PlaceView, pass_field: bool) -> Option<CallNode> {
        match self.start_node(p) {
            Some(s) => match call_dfs_first(self.nodes(), self.edges(), s, pass_field, self.marks(pass_field)) {
                Some(v) => Some(self.nodes()[v as int]),
                None => None,
            },
            None => None,
        }
    }

    /// The source of an operand: that of its place, or the node of its
    /// constant.
    pub open spec fn op_origin_of(self, op: Operand, pass_field: bool) -> Option<CallNode> {
        match op {
            Operand::Copy(p) => self.origin_of(p@, pass_field),
            Operand::Move(p) => self.origin_of(p@, pass_field),
            Operand::Constant(c) => match self.constant_node(c.literal) {
                Some(i) => Some(self.nodes()[i as int]),
                None => None,
            },
        }
    }

    /// Every recorded node index is a node of the graph, every user-variable
    /// entry lies within the debug information, and no body is visited twice
    /// at once.
    pub closed spec fn wf(self) -> bool {
        &&& forall|k: PlaceView| #[trigger] place_index_contents(self.local_decl_nodes).contains_key(k)
            ==> place_index_contents(self.local_decl_nodes)[k] < self.nodes().len()
        &&& forall|k: PlaceView| #[trigger] place_index_contents(self.other_nodes).contains_key(k)
            ==> place_index_contents(self.other_nodes)[k] < self.nodes().len()
        &&& forall|k: u32| #[trigger] id_index_contents(self.constant_nodes).contains_key(k)
            ==> id_index_contents(self.constant_nodes)[k] < self.nodes().len()
        &&& dbg_entries_in_range(place_index_contents(self.place_dbg_info_map), self.var_dbg_info@.len())
        &&& forall|i: int| 0 <= i < self.nodes().len() ==> dbg_in_range(#[trigger] self.nodes()[i], self.var_dbg_info@.len())
        &&& self.nodes().len() <= 0xFFFF_FFFF
        &&& self.visiting@.no_duplicates()
        &&& self.ddg.wf()
    }

    /// `b` is `a` with more nodes and edges: the nodes of `a` are kept, and
    /// so are the crate, the debug information, the filter and the bodies
    /// being visited.
    pub closed spec fn grows(a: Self, b: Self) -> bool {
        &&& b.wf()
        &&& a.nodes().len() <= b.nodes().len()
        &&& forall|i: int| 0 <= i < a.nodes().len() ==> b.nodes()[i] == #[trigger] a.nodes()[i]
        &&& b.tcx == a.tcx
        &&& b.var_dbg_info == a.var_dbg_info
        &&& b.place_dbg_info_map == a.place_dbg_info_map
        &&& b.heuristic == a.heuristic
        &&& b.visiting@ == a.visiting@
        &&& b.ddg == a.ddg
        &&& a.is_signer ==> b.is_signer
        &&& a.has_signer ==> b.has_signer
        &&& a.is_signer_span is Some ==> b.is_signer_span is Some
    }

    /// The terminator calls a constant function with an argument that is a
    /// signer account passed as the field at position 1.
    pub open spec fn terminator_passes_signer(&self, t: Terminator) -> bool {
        match t.kind {
            TerminatorKind::Call { func: Operand::Constant(_), args, .. } => exists|i: int|
                0 <= i < args@.len() && self.signer_arg(#[trigger] args@[i]),
            _ => false,
        }
    }

    /// A block of the body ends in a terminator that passes a signer account
    /// (see `terminator_passes_signer`).
    pub open spec fn body_passes_signer(&self, body: Body) -> bool {
        exists|k: int|
            0 <= k < body.basic_blocks@.len() && match #[trigger] body.basic_blocks@[k].terminator {
                Some(t) => self.terminator_passes_signer(t),
                None => false,
            }
    }

    /// The argument is a signer account passed as the field at position 1:
    /// its source, through fields, is a field at position 1 of a partial
    /// field reference, and its source is a user variable of type
    /// `AccountInfo` (its debug entry after the first) whose name is that of
    /// a signer.
    pub open spec fn signer_arg(&self, op: Operand) -> bool {
        signer_arg_in(*self.tcx, self.ddg, op)
    }

    /// While the graph of a body is built, its nodes stay where they are,
    /// the crate, debug information, filter, data-source graph and stack of
    /// bodies being visited stay the same, and the signer flags and the
    /// signer span, once set, stay set.
    pub proof fn law_grows_keeps(a: Self, b: Self)
        requires
            Self::grows(a, b),
        ensures
            a.nodes().len() <= b.nodes().len(),
            forall|i: int| 0 <= i < a.nodes().len() ==> b.nodes()[i] == #[trigger] a.nodes()[i],
            b.tcx == a.tcx,
            b.ddg == a.ddg,
            b.heuristic == a.heuristic,
            b.visiting@ == a.visiting@,
            a.is_signer ==> b.is_signer,
            a.has_signer ==> b.has_signer,
            a.is_signer_span is Some ==> b.is_signer_span is Some,
    {
    }

    proof fn lemma_grows_trans(a: Self, b: Self, c: Self)
        requires
            Self::grows(a, b),
            Self::grows(b, c),
        ensures
            Self::grows(a, c),
    {
        assert forall|i: int| 0 <= i < a.nodes().len() implies c.nodes()[i] == #[trigger] a.nodes()[i] by {
            assert(b.nodes()[i] == a.nodes()[i]);
        }
    }
}


impl<'a> CallGraph<'a> {
    /// Builds the graph of a body and looks for signer checks in it (see
    /// `visit_terminator`).
    pub fn new(body: &Body, tcx: &'a Tcx, ddg: DataDepsGraph<'a>, heuristic: HeuristicFilter) -> (r: Self)
        requires
            ddg.wf(),
        ensures
            r.wf(),
            *r.tcx == *tcx,
            r.heuristic() == heuristic,
            r.ddg == ddg,
            r.is_signer == signer_search(*tcx, ddg, *body).is_signer,
            r.has_signer == signer_search(*tcx, ddg, *body).has_signer,
            (r.is_signer_span is Some) == signer_search(*tcx, ddg, *body).span,
            body_calls_signer_try_accounts(*body) ==> r.is_signer && r.is_signer_span is Some,
            r.body_passes_signer(*body) ==> r.has_signer,
            place_index_contents(r.place_dbg_info_map) == dbg_map(
                body.var_debug_info@,
                body.var_debug_info@.len() as int,
            ),
    {
        let map = get_dbg_info_mapping(body);
        let n_infos = body.var_debug_info.len();
        proof {
            lemma_dbg_map_in_range(body.var_debug_info@, n_infos as int);
        }
        let mut cg = CallGraph {
            tcx,
            g: call_graph_new(),
            place_dbg_info_map: map,
            var_dbg_info: copy_dbg_info(&body.var_debug_info),
            heuristic,
            local_decl_nodes: PlaceIndex::new(),
            other_nodes: PlaceIndex::new(),
            constant_nodes: IdIndex::new(),
            visiting: Vec::new(),
            is_signer: false,
            is_signer_var: String::new(),
            is_signer_span: None,
            ddg,
            check_function: false,
            arg_posi: 0,
            has_signer: false,
        };
        cg.visit_body(body);
        cg
    }

    /// Adds an edge between two nodes, unless petgraph's limit of edges is
    /// reached.
    fn link(&mut self, a: usize, b: usize, e: CallEdge)
        requires
            old(self).wf(),
            a < old(self).nodes().len(),
            b < old(self).nodes().len(),
        ensures
            final(self).sig_of() == old(self).sig_of(),
            Self::grows(*old(self), *final(self)),
            final(self).nodes() == old(self).nodes(),
            final(self).start_node_map() == old(self).start_node_map(),
            final(self).edges() == if old(self).edges().len() < 0xFFFF_FFFF {
                old(self).edges().push((a, b, e))
            } else {
                old(self).edges()
            },
            Self::edges_extend(*old(self), *final(self)),
            Self::nodes_kept(*old(self), *final(self)),
            *final(self) == (Self { g: final(self).g, ..*old(self) }),
    {
        if call_edge_count(&self.g) < 0xFFFF_FFFF {
            call_add_edge(&mut self.g, a, b, e);
        }
    }

    /// The node maps, as one value.
    pub closed spec fn start_node_map(self) -> (Map<PlaceView, usize>, Map<PlaceView, usize>, Map<u32, usize>) {
        (
            place_index_contents(self.local_decl_nodes),
            place_index_contents(self.other_nodes),
            id_index_contents(self.constant_nodes),
        )
    }

    /// The edges of `a` stay, in order, at the start of the edges of `b`.
    pub closed spec fn edges_extend(a: Self, b: Self) -> bool {
        &&& a.edges().len() <= b.edges().len()
        &&& forall|i: int| 0 <= i < a.edges().len() ==> #[trigger] b.edges()[i] == a.edges()[i]
    }

    /// Every place that has a node in `a` has the same node in `b`.
    pub closed spec fn nodes_kept(a: Self, b: Self) -> bool {
        forall|q: PlaceView| a.start_node(q) is Some ==> #[trigger] b.start_node(q) == a.start_node(q)
    }

    /// The node that a place gets: its recorded node, or the next new node.
    pub closed spec fn node_for(a: Self, p: PlaceView) -> usize {
        match a.start_node(p) {
            Some(i) => i,
            None => a.nodes().len() as usize,
        }
    }

    /// Whether the place has a node or one can still be added.
    pub closed spec fn has_room_for(a: Self, p: PlaceView) -> bool {
        a.start_node(p) is Some || a.nodes().len() < 0xFFFF_FFFF
    }

    /// The effect of linking `left` to the node of `place`: the place gets
    /// its node (a new partial field reference when it had none), and when
    /// an edge is given and there is room, the first edge added goes from
    /// `left` to that node.
    pub closed spec fn place_linked(a: Self, b: Self, left: usize, place: PlaceView, edge: Option<CallEdge>) -> bool {
        let n = Self::node_for(a, place);
        &&& Self::grows(a, b)
        &&& Self::edges_extend(a, b)
        &&& Self::nodes_kept(a, b)
        &&& Self::has_room_for(a, place) ==> {
            &&& b.start_node(place) == Some(n)
            &&& a.start_node(place) is None ==> (b.nodes()[n as int] matches CallNode::PartialFieldRef { base } && base@ == place)
            &&& (edge is Some && a.edges().len() < 0xFFFF_FFFF) ==> b.edges()[a.edges().len() as int] == (left, n, edge.unwrap())
        }
        &&& !Self::has_room_for(a, place) ==> b == a
    }

    /// The effect of linking `left` to a new node of the constant: the node
    /// is added and recorded for the literal, and linked from `left` while
    /// there is room for edges; nothing changes once the graph is full.
    pub closed spec fn constant_linked(a: Self, b: Self, left: usize, c: Constant, edge: CallEdge) -> bool {
        let n = a.nodes().len() as usize;
        if a.nodes().len() < 0xFFFF_FFFF {
            &&& Self::grows(a, b)
            &&& b.nodes() == a.nodes().push(CallNode::Constant { val: c })
            &&& b.start_node_map() == (a.start_node_map().0, a.start_node_map().1, a.start_node_map().2.insert(c.literal, n))
            &&& b.edges() == if a.edges().len() < 0xFFFF_FFFF { a.edges().push((left, n, edge)) } else { a.edges() }
        } else {
            b == a
        }
    }

    /// The effect of linking `left` to the source of an operand.
    pub closed spec fn op_linked(a: Self, b: Self, left: usize, op: Operand, edge: CallEdge) -> bool {
        match op {
            Operand::Copy(p) => Self::place_linked(a, b, left, p@, Some(edge)),
            Operand::Move(p) => Self::place_linked(a, b, left, p@, Some(edge)),
            Operand::Constant(c) => Self::constant_linked(a, b, left, c, edge),
        }
    }

    /// The effect of linking `left` to the sources of an rvalue: a use or a
    /// unary operation by an assignment edge, a reference by a reference
    /// edge, a cast by a cast edge; anything else adds nothing.
    pub closed spec fn rvalue_linked(a: Self, b: Self, left: usize, rv: Rvalue) -> bool {
        match rv {
            Rvalue::Use(op) => Self::op_linked(a, b, left, op, CallEdge::Assign),
            Rvalue::Ref(p) => Self::place_linked(a, b, left, p@, Some(CallEdge::Ref)),
            Rvalue::Cast(op, _) => Self::op_linked(a, b, left, op, CallEdge::Cast),
            Rvalue::UnaryOp(op) => Self::op_linked(a, b, left, op, CallEdge::Assign),
            _ => b == a,
        }
    }

    /// The effect of an assignment: the assigned place gets its node (as a
    /// source would), and that node is linked to the sources of the rvalue.
    pub closed spec fn assign_linked(a: Self, b: Self, place: PlaceView, rv: Rvalue) -> bool {
        if Self::has_room_for(a, place) {
            exists|mid: Self| #[trigger] Self::rvalue_linked(mid, b, Self::node_for(a, place), rv)
                && Self::place_linked(a, mid, 0, place, None) && Self::node_for(a, place) < mid.nodes().len()
        } else {
            b == a
        }
    }

    proof fn lemma_kept_trans(a: Self, b: Self, c: Self)
        requires
            Self::grows(a, b),
            Self::grows(b, c),
            Self::edges_extend(a, b),
            Self::edges_extend(b, c),
            Self::nodes_kept(a, b),
            Self::nodes_kept(b, c),
        ensures
            Self::grows(a, c),
            Self::edges_extend(a, c),
            Self::nodes_kept(a, c),
    {
        Self::lemma_grows_trans(a, b, c);
        assert forall|i: int| 0 <= i < a.edges().len() implies #[trigger] c.edges()[i] == a.edges()[i] by {
            assert(b.edges()[i] == a.edges()[i]);
        }
        assert forall|q: PlaceView| a.start_node(q) is Some implies #[trigger] c.start_node(q) == a.start_node(q) by {
            assert(b.start_node(q) == a.start_node(q));
        }
    }

    /// The node of a place used as a source: its recorded node, or a new
    /// partial field reference (none once petgraph's limit of nodes is reached).
    fn get_right_place_node(&mut self, place: &Place) -> (r: Option<usize>)
        requires
            old(self).wf(),
        ensures
            final(self).sig_of() == old(self).sig_of(),
            Self::place_linked(*old(self), *final(self), 0, place@, None),
            r is None <==> !Self::has_room_for(*old(self), place@),
            r matches Some(i) ==> i == Self::node_for(*old(self), place@),
            Self::grows(*old(self), *final(self)),
            final(self).edges() == old(self).edges(),
            match r {
                Some(i) => i < final(self).nodes().len() && final(self).start_node(place@) == Some(i),
                None => old(self).start_node(place@).is_none(),
            },
    {
        match self.local_decl_nodes.get(place) {
            Some(i) => {
                return Some(i);
            },
            None => {},
        }
        match self.other_nodes.get(place) {
            Some(i) => {
                return Some(i);
            },
            None => {},
        }
        if call_node_count(&self.g) >= 0xFFFF_FFFF {
            return None;
        }
        let ni = call_add_node(&mut self.g, CallNode::PartialFieldRef { base: place.copy_place() });
        self.other_nodes.insert(place.copy_place(), ni);
        Some(ni)
    }

    /// The node of an assigned place; the same as for a source.
    fn get_left_place_node(&mut self, place: &Place) -> (r: Option<usize>)
        requires
            old(self).wf(),
        ensures
            final(self).sig_of() == old(self).sig_of(),
            Self::place_linked(*old(self), *final(self), 0, place@, None),
            r is None <==> !Self::has_room_for(*old(self), place@),
            r matches Some(i) ==> i == Self::node_for(*old(self), place@),
            Self::grows(*old(self), *final(self)),
            final(self).edges() == old(self).edges(),
            match r {
                Some(i) => i < final(self).nodes().len() && final(self).start_node(place@) == Some(i),
                None => old(self).start_node(place@).is_none(),
            },
    {
        self.get_right_place_node(place)
    }

    /// Links `left` to the node of `place` by `edge`, then each field access
    /// of the place to its base, down to the local; projections other than
    /// field accesses are passed over and linked at the end.
    fn handle_place(&mut self, left: usize, place: &Place, edge: Option<CallEdge>)
        requires
            old(self).wf(),
            left < old(self).nodes().len(),
        ensures
            final(self).sig_of() == old(self).sig_of(),
            Self::grows(*old(self), *final(self)),
            Self::place_linked(*old(self), *final(self), left, place@, edge),
    {
        let ghost n = Self::node_for(*old(self), place@);
        let mut cur = match self.get_right_place_node(place) {
            Some(i) => i,
            None => {
                return;
            },
        };
        let ghost first = *self;
        match edge {
            Some(e) => {
                self.link(left, cur, e);
            },
            None => {},
        }
        proof {
            if edge is Some {
                Self::lemma_kept_trans(*old(self), first, *self);
            }
        }
        let mut cursor = place.copy_place();
        loop
            invariant
                Self::grows(*old(self), *self),
                self.sig_of() == old(self).sig_of(),
                cur < self.nodes().len(),
                Self::edges_extend(*old(self), *self),
                Self::nodes_kept(*old(self), *self),
                Self::has_room_for(*old(self), place@),
                n == Self::node_for(*old(self), place@),
                self.start_node(place@) == Some(n),
                old(self).start_node(place@) is None ==> (self.nodes()[n as int] matches CallNode::PartialFieldRef { base } && base@ == place@),
                (edge is Some && old(self).edges().len() < 0xFFFF_FFFF) ==> self.edges()[old(self).edges().len() as int] == (left, n, edge.unwrap()),
                (edge is Some && old(self).edges().len() < 0xFFFF_FFFF) ==> self.edges().len() > old(self).edges().len(),
            decreases cursor.projection@.len(),
        {
            match cursor.last_projection() {
                Some((base, elem)) => {
                    match elem {
                        ProjElem::Field { field, .. } => {
                            let ghost s0 = *self;
                            let b = match self.get_right_place_node(&base) {
                                Some(i) => i,
                                None => {
                                    assert(*self == s0);
                                    return;
                                },
                            };
                            let ghost s1 = *self;
                            proof {
                                Self::lemma_kept_trans(*old(self), s0, s1);
                            }
                            self.link(cur, b, CallEdge::FieldRef(field));
                            proof {
                                Self::lemma_kept_trans(*old(self), s1, *self);
                            }
                            cur = b;
                        },
                        _ => {},
                    }
                    cursor = base;
                },
                None => {
                    break;
                },
            }
        }
        let ghost s2 = *self;
        let last = match self.get_right_place_node(&cursor) {
            Some(i) => i,
            None => {
                assert(*self == s2);
                return;
            },
        };
        let ghost s3 = *self;
        proof {
            Self::lemma_kept_trans(*old(self), s2, s3);
        }
        if last != cur {
            self.link(cur, last, CallEdge::IgnoredProjection);
            proof {
                Self::lemma_kept_trans(*old(self), s3, *self);
            }
        }
    }

    /// Links `left` to a new node of the constant.
    fn handle_constant(&mut self, left: usize, c: &Constant, edge: CallEdge)
        requires
            old(self).wf(),
            left < old(self).nodes().len(),
        ensures
            final(self).sig_of() == old(self).sig_of(),
            Self::grows(*old(self), *final(self)),
            Self::constant_linked(*old(self), *final(self), left, *c, edge),
    {
        if call_node_count(&self.g) >= 0xFFFF_FFFF {
            return;
        }
        let ni = call_add_node(&mut self.g, CallNode::Constant { val: c.copy() });
        self.constant_nodes.insert(c.literal, ni);
        self.link(left, ni, edge);
    }

    /// Links `left` to the source of an operand.
    fn handle_op(&mut self, left: usize, op: &Operand, edge: CallEdge)
        requires
            old(self).wf(),
            left < old(self).nodes().len(),
        ensures
            final(self).sig_of() == old(self).sig_of(),
            Self::grows(*old(self), *final(self)),
            Self::op_linked(*old(self), *final(self), left, *op, edge),
    {
        match op {
            Operand::Move(from) | Operand::Copy(from) => self.handle_place(left, from, Some(edge)),
            Operand::Constant(c) => self.handle_constant(left, c, edge),
        }
    }

    /// Looks up the source of the right operand of a binary operation;
    /// nothing is added to the graph.
    fn handle_binary_op(&self, right: &Operand)
        requires
            self.wf(),
    {
        let _origin = self.origin_op_source(right, true);
    }

    /// Links an assigned place's node to the sources of the rvalue.
    fn handle_rvalue(&mut self, left: usize, rvalue: &Rvalue)
        requires
            old(self).wf(),
            left < old(self).nodes().len(),
        ensures
            final(self).sig_of() == old(self).sig_of(),
            Self::grows(*old(self), *final(self)),
            Self::rvalue_linked(*old(self), *final(self), left, *rvalue),
    {
        match rvalue {
            Rvalue::Use(op) => self.handle_op(left, op, CallEdge::Assign),
            Rvalue::Ref(p) => self.handle_place(left, p, Some(CallEdge::Ref)),
            Rvalue::Cast(op, _ty) => self.handle_op(left, op, CallEdge::Cast),
            Rvalue::BinaryOp(_op, _a, b) => self.handle_binary_op(b),
            Rvalue::UnaryOp(op) => self.handle_op(left, op, CallEdge::Assign),
            _ => {},
        }
    }

    /// An assignment links the assigned place to the sources of its value.
    fn visit_assign(&mut self, place: &Place, rvalue: &Rvalue)
        requires
            old(self).wf(),
        ensures
            final(self).sig_of() == old(self).sig_of(),
            Self::grows(*old(self), *final(self)),
            Self::assign_linked(*old(self), *final(self), place@, *rvalue),
    {
        match self.get_left_place_node(place) {
            Some(left) => {
                let ghost mid = *self;
                self.handle_rvalue(left, rvalue);
                assert(Self::rvalue_linked(mid, *self, Self::node_for(*old(self), place@), *rvalue));
            },
            None => {},
        }
    }

    /// Whether the body is being visited.
    fn is_visiting(&self, d: DefId) -> (r: bool)
        ensures
            r == self.visiting@.contains(d),
    {
        let mut i: usize = 0;
        while i < self.visiting.len()
            invariant
                i <= self.visiting@.len(),
                forall|j: int| 0 <= j < i ==> self.visiting@[j] != d,
            decreases self.visiting@.len() - i,
        {
            if self.visiting[i] == d {
                assert(self.visiting@[i as int] == d);
                return true;
            }
            i = i + 1;
        }
        false
    }

    /// Visits a body: the edges of each assignment and the terminators,
    /// block by block; a body that is already being visited is skipped.
    fn visit_body(&mut self, body: &Body)
        requires
            old(self).wf(),
        ensures
            Self::grows(*old(self), *final(self)),
            final(self).sig_of() == search_body(*old(self).tcx, old(self).ddg, old(self).sig_of(), *body),
            !old(self).visiting@.contains(body.def_id) && body_calls_signer_try_accounts(*body) ==> final(self).is_signer
                && final(self).is_signer_span is Some,
            !old(self).visiting@.contains(body.def_id) && old(self).body_passes_signer(*body) ==> final(self).has_signer
                && final(self).is_signer_span is Some,
        decreases 0x1_0000_0000 - old(self).visiting@.len(), 0int,
    {
        if self.is_visiting(body.def_id) {
            return;
        }
        self.visiting.push(body.def_id);
        proof {
            assert(self.visiting@.no_duplicates()) by {
                assert forall|a: int, b: int| 0 <= a < b < self.visiting@.len() implies self.visiting@[a]
                    != self.visiting@[b] by {
                    if b == self.visiting@.len() - 1 {
                        assert(old(self).visiting@.contains(old(self).visiting@[a]));
                    }
                }
            }
            lemma_distinct_ids_bounded(self.visiting@);
        }
        let ghost start = *self;
        let ghost sp = self.sig_of();
        let mut b: usize = 0;
        while b < body.basic_blocks.len()
            invariant
                Self::grows(start, *self),
                self.visiting@.len() <= 0x1_0000_0000,
                self.visiting@.len() == old(self).visiting@.len() + 1,
                b <= body.basic_blocks@.len(),
                search_blocks(*old(self).tcx, old(self).ddg, sp, *body, 0) == search_blocks(
                    *old(self).tcx,
                    old(self).ddg,
                    self.sig_of(),
                    *body,
                    b as int,
                ),
                (exists|k: int| 0 <= k < b && match #[trigger] body.basic_blocks@[k].terminator {
                    Some(t) => is_signer_try_accounts(t),
                    None => false,
                }) ==> self.is_signer && self.is_signer_span is Some,
                (exists|k: int| 0 <= k < b && match #[trigger] body.basic_blocks@[k].terminator {
                    Some(t) => old(self).terminator_passes_signer(t),
                    None => false,
                }) ==> self.has_signer && self.is_signer_span is Some,
                self.ddg == old(self).ddg,
                self.tcx == old(self).tcx,
            decreases body.basic_blocks@.len() - b,
        {
            let bb: &BasicBlockData = &body.basic_blocks[b];
            let ghost sb = self.sig_of();
            let mut j: usize = 0;
            while j < bb.statements.len()
                invariant
                    self.sig_of() == sb,
                    Self::grows(start, *self),
                    self.visiting@.len() <= 0x1_0000_0000,
                    self.visiting@.len() == old(self).visiting@.len() + 1,
                    (exists|k: int| 0 <= k < b && match #[trigger] body.basic_blocks@[k].terminator {
                        Some(t) => is_signer_try_accounts(t),
                        None => false,
                    }) ==> self.is_signer && self.is_signer_span is Some,
                    (exists|k: int| 0 <= k < b && match #[trigger] body.basic_blocks@[k].terminator {
                        Some(t) => old(self).terminator_passes_signer(t),
                        None => false,
                    }) ==> self.has_signer && self.is_signer_span is Some,
                    self.ddg == old(self).ddg,
                    self.tcx == old(self).tcx,
                decreases bb.statements@.len() - j,
            {
                match &bb.statements[j].kind {
                    StatementKind::Assign(place, rvalue) => self.visit_assign(place, rvalue),
                    _ => {},
                }
                j = j + 1;
            }
            let ghost mid = *self;
            match &bb.terminator {
                Some(t) => self.visit_terminator(t),
                None => {},
            }
            proof {
                assert(Self::grows(mid, *self));
                assert(self.sig_of() == match body.basic_blocks@[b as int].terminator {
                    Some(t) => SignerSearch { visiting: sb.visiting, ..search_term(*old(self).tcx, old(self).ddg, sb, t) },
                    None => sb,
                });
                assert forall|k: int| 0 <= k < b + 1 && match #[trigger] body.basic_blocks@[k].terminator {
                    Some(t) => is_signer_try_accounts(t),
                    None => false,
                } implies self.is_signer && self.is_signer_span is Some by {
                    if k < b {
                        assert(mid.is_signer && mid.is_signer_span is Some);
                    }
                }
                assert forall|k: int| 0 <= k < b + 1 && match #[trigger] body.basic_blocks@[k].terminator {
                    Some(t) => old(self).terminator_passes_signer(t),
                    None => false,
                } implies self.has_signer && self.is_signer_span is Some by {
                    if k < b {
                        assert(mid.has_signer && mid.is_signer_span is Some);
                    }
                }
            }
            b = b + 1;
        }
        let ghost before_pop = *self;
        self.visiting.pop();
        proof {
            assert(self.visiting@ =~= old(self).visiting@);
            assert(search_blocks(*old(self).tcx, old(self).ddg, before_pop.sig_of(), *body, b as int) == before_pop.sig_of());
            assert forall|k: int| 0 <= k < old(self).nodes().len() implies self.nodes()[k]
                == #[trigger] old(self).nodes()[k] by {
                assert(start.nodes()[k] == old(self).nodes()[k]);
            }
        }
    }

    /// Visits the body of a called function, if its target is known and
    /// has a body.
    fn visit_callee(&mut self, func: &Operand)
        requires
            old(self).wf(),
            old(self).visiting@.len() <= 0x1_0000_0000,
        ensures
            Self::grows(*old(self), *final(self)),
            final(self).sig_of() == search_callee(*old(self).tcx, old(self).ddg, old(self).sig_of(), *func),
            match spec_resolve_call_target(*old(self).tcx, *func) {
                Some(callee) => match body_of(*old(self).tcx, callee) {
                    Some(b) => !old(self).visiting@.contains(b.def_id) && body_calls_signer_try_accounts(b)
                        ==> final(self).is_signer,
                    None => *final(self) == *old(self),
                },
                None => *final(self) == *old(self),
            },
        decreases 0x1_0000_0000 - old(self).visiting@.len(), 1int,
    {
        let tcx: &'a Tcx = self.tcx;
        match resolve_call_target(tcx, func) {
            Some(callee) => match tcx.optimized_mir(callee) {
                Some(callee_body) => {
                    self.visit_body(callee_body);
                },
                None => {},
            },
            None => {},
        }
    }

    /// Looks for a signer check at a terminator. A call of
    /// `<Signer as anchor_lang::Accounts>::try_accounts` shows a signer.
    /// An argument whose source is a user variable of type `AccountInfo`
    /// named like a signer (its debug entry after the first), passed as the
    /// field at position 1 of a partial field reference, shows that a signer
    /// account is passed: the called function is then visited to check it.
    /// While a called function is checked, its callees are visited too, and
    /// a switch on a value that comes from the checked parameter shows a
    /// signer check.
    pub fn visit_terminator(&mut self, terminator: &Terminator)
        requires
            old(self).wf(),
            old(self).visiting@.len() <= 0x1_0000_0000,
        ensures
            Self::grows(*old(self), *final(self)),
            final(self).visiting@ == old(self).visiting@,
            final(self).sig_of() == search_term(*old(self).tcx, old(self).ddg, old(self).sig_of(), *terminator),
            is_signer_try_accounts(*terminator) ==> final(self).is_signer && final(self).is_signer_span is Some,
            old(self).terminator_passes_signer(*terminator) ==> final(self).has_signer && final(self).is_signer_span is Some,
            terminator.kind is Other ==> *final(self) == *old(self),
            match terminator.kind {
                TerminatorKind::Call { func: Operand::Constant(c), args, .. } => (exists|i: int|
                    0 <= i < args@.len() && old(self).signer_arg(#[trigger] args@[i])) ==> {
                    &&& final(self).has_signer
                    &&& final(self).is_signer_span is Some
                    &&& match spec_resolve_call_target(*old(self).tcx, Operand::Constant(c)) {
                        Some(callee) => match body_of(*old(self).tcx, callee) {
                            Some(b) => !old(self).visiting@.contains(b.def_id) && body_calls_signer_try_accounts(b)
                                ==> final(self).is_signer,
                            None => true,
                        },
                        None => true,
                    }
                },
                _ => true,
            },
            terminator.kind matches TerminatorKind::SwitchInt { discr } ==> *final(self) == (if old(self).check_function
                && (old(self).ddg.op_origin_of(discr, true) matches Some(DdNode::LocalDecl { local, .. })
                && local == old(self).arg_posi + 1) {
                (CallGraph { is_signer: true, ..*old(self) })
            } else {
                *old(self)
            }),
        decreases 0x1_0000_0000 - old(self).visiting@.len(), 2int,
    {
        let tcx: &'a Tcx = self.tcx;
        match &terminator.kind {
            TerminatorKind::Call { func, args, fn_span, .. } => {
                match func {
                    Operand::Constant(c) => {
                        proof {
                            reveal_strlit("Signer as anchor_lang::Accounts>::try_accounts");
                        }
                        if str_contains(c.debug.as_str(), "Signer as anchor_lang::Accounts>::try_accounts") {
                            self.is_signer = true;
                            self.is_signer_var = c.debug.clone();
                            self.is_signer_span = Some(*fn_span);
                        }
                        let ghost s1 = self.sig_of();
                        let mut i: usize = 0;
                        while i < args.len()
                            invariant
                                Self::grows(*old(self), *self),
                                self.visiting@ == old(self).visiting@,
                                self.visiting@.len() <= 0x1_0000_0000,
                                *self.tcx == *tcx,
                                *func == Operand::Constant(*c),
                                self.ddg == old(self).ddg,
                                self.tcx == old(self).tcx,
                                search_args(*tcx, old(self).ddg, s1, *func, args@, 0) == search_args(
                                    *tcx,
                                    old(self).ddg,
                                    self.sig_of(),
                                    *func,
                                    args@,
                                    i as int,
                                ),
                                s1.visiting == old(self).visiting@,
                                is_signer_try_accounts(*terminator) ==> self.is_signer && self.is_signer_span is Some,
                                i <= args@.len(),
                                (exists|j: int| 0 <= j < i && old(self).signer_arg(#[trigger] args@[j])) ==> {
                                    &&& self.has_signer
                                    &&& self.is_signer_span is Some
                                    &&& match spec_resolve_call_target(*old(self).tcx, *func) {
                                        Some(callee) => match body_of(*old(self).tcx, callee) {
                                            Some(b) => !old(self).visiting@.contains(b.def_id)
                                                && body_calls_signer_try_accounts(b) ==> self.is_signer,
                                            None => true,
                                        },
                                        None => true,
                                    }
                                },
                            decreases args@.len() - i,
                        {
                            let arg = &args[i];
                            let posi = signer_field_position(self.ddg.origin_op_source(arg, false));
                            let ghost pre = self.sig_of();
                            let is_account = match self.ddg.origin_op_source(arg, true) {
                                Some(DdNode::LocalDecl { ty, dbg_info, .. }) => {
                                    if is_account_info_ty(tcx, *ty) && *dbg_info >= 2 && *dbg_info - 1
                                        < self.ddg.var_dbg_info.len() {
                                        Some(*dbg_info - 1)
                                    } else {
                                        None
                                    }
                                },
                                _ => None,
                            };
                            match is_account {
                                Some(k) => {
                                    let name = tcx.symbol_str(self.ddg.var_dbg_info[k].name);
                                    if check_is_signer_name(name.clone()) && posi == 1 {
                                        self.has_signer = true;
                                        self.is_signer_span = Some(self.ddg.var_dbg_info[k].span);
                                        self.is_signer_var = name;
                                        match resolve_call_target(tcx, func) {
                                            Some(callee) => match tcx.optimized_mir(callee) {
                                                Some(callee_body) => {
                                                    self.check_function = true;
                                                    self.arg_posi = i;
                                                    self.visit_body(callee_body);
                                                    self.check_function = false;
                                                },
                                                None => {},
                                            },
                                            None => {},
                                        }
                                    }
                                },
                                None => {},
                            }
                            proof {
                                let step = if signer_arg_in(*tcx, old(self).ddg, args@[i as int]) {
                                    let s0 = SignerSearch { has_signer: true, span: true, ..pre };
                                    match spec_resolve_call_target(*tcx, *func) {
                                        Some(c) => match body_of(*tcx, c) {
                                            Some(cb) => {
                                                let r = search_body(
                                                    *tcx,
                                                    old(self).ddg,
                                                    SignerSearch { check: true, posi: i, ..s0 },
                                                    cb,
                                                );
                                                SignerSearch { check: false, visiting: pre.visiting, ..r }
                                            },
                                            None => s0,
                                        },
                                        None => s0,
                                    }
                                } else {
                                    pre
                                };
                                assert(self.sig_of() == SignerSearch { visiting: pre.visiting, ..step });
                            }
                            i = i + 1;
                        }
                        let ghost s2 = self.sig_of();
                        proof {
                            assert(search_args(*tcx, old(self).ddg, s2, *func, args@, args@.len() as int) == s2);
                        }
                        if self.check_function {
                            self.visit_callee(func);
                        }
                    },
                    _ => {},
                }
            },
            TerminatorKind::SwitchInt { discr } => {
                if self.check_function {
                    match self.ddg.origin_op_source(discr, true) {
                        Some(DdNode::LocalDecl { local, .. }) => {
                            if *local as u128 == self.arg_posi as u128 + 1 {
                                self.is_signer = true;
                            }
                        },
                        _ => {},
                    }
                }
            },
            _ => {},
        }
    }
}

/// The argument is a signer account passed as the field at position 1
/// (see `CallGraph::signer_arg`), in the crate `tcx` with the data-source
/// graph `ddg`.
pub open spec fn signer_arg_in(tcx: Tcx, ddg: DataDepsGraph, op: Operand) -> bool {
    &&& spec_signer_field_position(ddg.op_origin_of(op, false)) == 1
    &&& match ddg.op_origin_of(op, true) {
        Some(DdNode::LocalDecl { ty, dbg_info, .. }) => spec_is_account_info_ty(tcx, ty) && dbg_info >= 2
            && dbg_info - 1 < ddg.var_dbg_info@.len() && contains_any(
            symbol(tcx, ddg.var_dbg_info@[dbg_info - 1].name),
            spec_is_signer_vars(),
        ),
        _ => false,
    }
}

/// The bound on the number of bodies being visited at once.
pub open spec fn visit_bound() -> int {
    0x1_0000_0000
}

/// The search for signer checks in a body, from state `s`: a body that is
/// being visited is passed over; else its blocks are searched, with the
/// body on the stack of bodies being visited.
pub open spec fn search_body(tcx: Tcx, ddg: DataDepsGraph, s: SignerSearch, body: Body) -> SignerSearch
    decreases visit_bound() - s.visiting.len(), 0int, 0int, 0int,
{
    if s.visiting.contains(body.def_id) || s.visiting.len() >= visit_bound() {
        s
    } else {
        let r = search_blocks(tcx, ddg, SignerSearch { visiting: s.visiting.push(body.def_id), ..s }, body, 0);
        SignerSearch { visiting: s.visiting, ..r }
    }
}

/// The search through blocks `b..` of the body, in order: each block's
/// terminator is searched.
pub open spec fn search_blocks(tcx: Tcx, ddg: DataDepsGraph, s: SignerSearch, body: Body, b: int) -> SignerSearch
    decreases visit_bound() - s.visiting.len(), 5int, body.basic_blocks@.len() - b, 0int,
{
    if b < 0 || b >= body.basic_blocks@.len() {
        s
    } else {
        let s2 = match body.basic_blocks@[b].terminator {
            Some(t) => SignerSearch { visiting: s.visiting, ..search_term(tcx, ddg, s, t) },
            None => s,
        };
        search_blocks(tcx, ddg, s2, body, b + 1)
    }
}

/// The search at a terminator. A call of a constant: a call of the
/// `try_accounts` of an anchor `Signer` is a signer check; then each
/// argument that is a signer account (see `signer_arg_in`) is a signer
/// account passed, and the called function is checked for a use of it;
/// then, while a function is being checked, the called function is
/// searched too. A switch, while a function is being checked, on a value
/// that comes from the parameter in the checked position is a signer check.
pub open spec fn search_term(tcx: Tcx, ddg: DataDepsGraph, s: SignerSearch, t: Terminator) -> SignerSearch
    decreases visit_bound() - s.visiting.len(), 4int, 0int, 0int,
{
    match t.kind {
        TerminatorKind::Call { func, args, .. } => match func {
            Operand::Constant(_) => {
                let s1 = if is_signer_try_accounts(t) {
                    SignerSearch { is_signer: true, span: true, ..s }
                } else {
                    s
                };
                let s2 = search_args(tcx, ddg, s1, func, args@, 0);
                if s2.check {
                    search_callee(tcx, ddg, SignerSearch { visiting: s.visiting, ..s2 }, func)
                } else {
                    s2
                }
            },
            _ => s,
        },
        TerminatorKind::SwitchInt { discr } => if s.check && (ddg.op_origin_of(discr, true) matches Some(
            DdNode::LocalDecl { local, .. },
        ) && local == s.posi + 1) {
            SignerSearch { is_signer: true, ..s }
        } else {
            s
        },
        _ => s,
    }
}

/// The search through arguments `i..` of a call of `func`.
pub open spec fn search_args(
    tcx: Tcx,
    ddg: DataDepsGraph,
    s: SignerSearch,
    func: Operand,
    args: Seq<Operand>,
    i: int,
) -> SignerSearch
    decreases visit_bound() - s.visiting.len(), 3int, 0int, args.len() - i,
{
    if i < 0 || i >= args.len() {
        s
    } else {
        let s1 = if signer_arg_in(tcx, ddg, args[i]) {
            let s0 = SignerSearch { has_signer: true, span: true, ..s };
            match spec_resolve_call_target(tcx, func) {
                Some(c) => match body_of(tcx, c) {
                    Some(cb) => {
                        let r = search_body(tcx, ddg, SignerSearch { check: true, posi: i as usize, ..s0 }, cb);
                        SignerSearch { check: false, visiting: s.visiting, ..r }
                    },
                    None => s0,
                },
                None => s0,
            }
        } else {
            s
        };
        search_args(tcx, ddg, SignerSearch { visiting: s.visiting, ..s1 }, func, args, i + 1)
    }
}

/// The search in the body of the called function, if it has one.
pub open spec fn search_callee(tcx: Tcx, ddg: DataDepsGraph, s: SignerSearch, func: Operand) -> SignerSearch
    decreases visit_bound() - s.visiting.len(), 1int, 0int, 0int,
{
    match spec_resolve_call_target(tcx, func) {
        Some(c) => match body_of(tcx, c) {
            Some(cb) => search_body(tcx, ddg, s, cb),
            None => s,
        },
        None => s,
    }
}

/// The outcome of the search for signer checks in a body, from a new
/// graph with the data-source graph `ddg` (see `search_body`).
pub open spec fn signer_search(tcx: Tcx, ddg: DataDepsGraph, body: Body) -> SignerSearch {
    search_body(tcx, ddg, search_start(), body)
}

/// The search state of a new graph: nothing found, no function checked,
/// no body being visited.
pub open spec fn search_start() -> SignerSearch {
    SignerSearch { is_signer: false, has_signer: false, span: false, check: false, posi: 0, visiting: Seq::empty() }
}

/// `b` keeps every finding of `a`: a signer check, a signer account
/// passed, and a recorded span.
pub open spec fn findings_kept(a: SignerSearch, b: SignerSearch) -> bool {
    &&& a.is_signer ==> b.is_signer
    &&& a.has_signer ==> b.has_signer
    &&& a.span ==> b.span
}

/// The search for signer checks in a body only ever sets its findings,
/// never clears them, also through the bodies it visits on the way.
pub proof fn law_search_body_keeps_findings(tcx: Tcx, ddg: DataDepsGraph, s: SignerSearch, body: Body)
    ensures
        findings_kept(s, search_body(tcx, ddg, s, body)),
    decreases visit_bound() - s.visiting.len(), 0int, 0int, 0int,
{
    if !(s.visiting.contains(body.def_id) || s.visiting.len() >= visit_bound()) {
        law_search_blocks_keeps_findings(tcx, ddg, SignerSearch { visiting: s.visiting.push(body.def_id), ..s }, body, 0);
    }
}

/// The search through the blocks of a body keeps its findings.
pub proof fn law_search_blocks_keeps_findings(tcx: Tcx, ddg: DataDepsGraph, s: SignerSearch, body: Body, b: int)
    ensures
        findings_kept(s, search_blocks(tcx, ddg, s, body, b)),
    decreases visit_bound() - s.visiting.len(), 5int, body.basic_blocks@.len() - b, 0int,
{
    if !(b < 0 || b >= body.basic_blocks@.len()) {
        let s2 = match body.basic_blocks@[b].terminator {
            Some(t) => {
                law_search_term_keeps_findings(tcx, ddg, s, t);
                SignerSearch { visiting: s.visiting, ..search_term(tcx, ddg, s, t) }
            },
            None => s,
        };
        law_search_blocks_keeps_findings(tcx, ddg, s2, body, b + 1);
    }
}

/// The search at a terminator keeps the findings: the signer flags are
/// only ever set, never cleared, also during the visits of callee bodies.
pub proof fn law_search_term_keeps_findings(tcx: Tcx, ddg: DataDepsGraph, s: SignerSearch, t: Terminator)
    ensures
        findings_kept(s, search_term(tcx, ddg, s, t)),
    decreases visit_bound() - s.visiting.len(), 4int, 0int, 0int,
{
    match t.kind {
        TerminatorKind::Call { func, args, .. } => match func {
            Operand::Constant(_) => {
                let s1 = if is_signer_try_accounts(t) {
                    SignerSearch { is_signer: true, span: true, ..s }
                } else {
                    s
                };
                law_search_args_keeps_findings(tcx, ddg, s1, func, args@, 0);
                let s2 = search_args(tcx, ddg, s1, func, args@, 0);
                if s2.check {
                    law_search_callee_keeps_findings(tcx, ddg, SignerSearch { visiting: s.visiting, ..s2 }, func);
                }
            },
            _ => {},
        },
        _ => {},
    }
}

/// The search through the arguments of a call keeps the findings.
pub proof fn law_search_args_keeps_findings(
    tcx: Tcx,
    ddg: DataDepsGraph,
    s: SignerSearch,
    func: Operand,
    args: Seq<Operand>,
    i: int,
)
    ensures
        findings_kept(s, search_args(tcx, ddg, s, func, args, i)),
    decreases visit_bound() - s.visiting.len(), 3int, 0int, args.len() - i,
{
    if !(i < 0 || i >= args.len()) {
        let s1 = if signer_arg_in(tcx, ddg, args[i]) {
            let s0 = SignerSearch { has_signer: true, span: true, ..s };
            match spec_resolve_call_target(tcx, func) {
                Some(c) => match body_of(tcx, c) {
                    Some(cb) => {
                        law_search_body_keeps_findings(tcx, ddg, SignerSearch { check: true, posi: i as usize, ..s0 }, cb);
                        let r = search_body(tcx, ddg, SignerSearch { check: true, posi: i as usize, ..s0 }, cb);
                        SignerSearch { check: false, visiting: s.visiting, ..r }
                    },
                    None => s0,
                },
                None => s0,
            }
        } else {
            s
        };
        law_search_args_keeps_findings(tcx, ddg, SignerSearch { visiting: s.visiting, ..s1 }, func, args, i + 1);
    }
}

/// The search in the body of a called function keeps the findings.
pub proof fn law_search_callee_keeps_findings(tcx: Tcx, ddg: DataDepsGraph, s: SignerSearch, func: Operand)
    ensures
        findings_kept(s, search_callee(tcx, ddg, s, func)),
    decreases visit_bound() - s.visiting.len(), 1int, 0int, 0int,
{
    match spec_resolve_call_target(tcx, func) {
        Some(c) => match body_of(tcx, c) {
            Some(cb) => law_search_body_keeps_findings(tcx, ddg, s, cb),
            None => {},
        },
        None => {},
    }
}

/// Whether a block of the body ends in a call of
/// `<Signer as anchor_lang::Accounts>::try_accounts`.
pub open spec fn body_calls_signer_try_accounts(body: Body) -> bool {
    exists|b: int|
        0 <= b < body.basic_blocks@.len() && match #[trigger] body.basic_blocks@[b].terminator {
            Some(t) => is_signer_try_accounts(t),
            None => false,
        }
}

/// Whether the terminator calls `<Signer as anchor_lang::Accounts>::try_accounts`.
pub open spec fn is_signer_try_accounts(t: Terminator) -> bool {
    match t.kind {
        TerminatorKind::Call { func: Operand::Constant(c), .. } => seq_contains(
            c.debug@,
            "Signer as anchor_lang::Accounts>::try_accounts"@,
        ),
        _ => false,
    }
}

/// The field position that a source shows: for a partial field reference
/// with two projections, the second when it is a field; with three, the
/// third; otherwise a position that no field has.
pub open spec fn spec_signer_field_position(n: Option<DdNode>) -> u64 {
    match n {
        Some(DdNode::PartialFieldRef { base }) => if base.projection@.len() == 2 {
            match base.projection@[1] {
                ProjElem::Field { field, .. } => field as u64,
                _ => 10000000000u64,
            }
        } else if base.projection@.len() == 3 {
            match base.projection@[2] {
                ProjElem::Field { field, .. } => field as u64,
                _ => 10000000000u64,
            }
        } else {
            10000000000u64
        },
        _ => 10000000000u64,
    }
}

/// The field position that a source shows (see `spec_signer_field_position`).
fn signer_field_position(n: Option<&DdNode>) -> (r: u64)
    ensures
        r == spec_signer_field_position(match n {
            Some(x) => Some(*x),
            None => None,
        }),
{
    match n {
        Some(DdNode::PartialFieldRef { base }) => {
            if base.projection.len() == 2 {
                match base.projection[1] {
                    ProjElem::Field { field, .. } => field as u64,
                    _ => 10000000000u64,
                }
            } else if base.projection.len() == 3 {
                match base.projection[2] {
                    ProjElem::Field { field, .. } => field as u64,
                    _ => 10000000000u64,
                }
            } else {
                10000000000u64
            }
        },
        _ => 10000000000u64,
    }
}

/// Whether a type is Solana's or Anchor's `AccountInfo`.
pub open spec fn spec_is_account_info_ty(tcx: Tcx, t: u32) -> bool {
    match ty_of(tcx, t) {
        Some(d) => seq_contains(d.display@, "solana_program::account_info::AccountInfo"@) || seq_contains(
            d.display@,
            "anchor_lang::prelude::AccountInfo"@,
        ),
        None => false,
    }
}

/// Whether a type is Solana's or Anchor's `AccountInfo`.
fn is_account_info_ty(tcx: &Tcx, t: u32) -> (r: bool)
    ensures
        r == spec_is_account_info_ty(*tcx, t),
{
    match tcx.ty(t) {
        Some(d) => {
            proof {
                reveal_strlit("solana_program::account_info::AccountInfo");
                reveal_strlit("anchor_lang::prelude::AccountInfo");
            }
            str_contains(d.display.as_str(), "solana_program::account_info::AccountInfo") || str_contains(
                d.display.as_str(),
                "anchor_lang::prelude::AccountInfo",
            )
        },
        None => false,
    }
}

/// The function that a call targets: a function item or a closure.
pub open spec fn spec_resolve_call_target(tcx: Tcx, func: Operand) -> Option<DefId> {
    match func {
        Operand::Constant(c) => match ty_of(tcx, c.ty) {
            Some(d) => match d.kind {
                TyKind::FnDef(f) => Some(f),
                TyKind::Closure(f) => Some(f),
                _ => None,
            },
            None => None,
        },
        _ => None,
    }
}

/// The function that a call targets (see `spec_resolve_call_target`).
fn resolve_call_target(tcx: &Tcx, func: &Operand) -> (r: Option<DefId>)
    ensures
        r == spec_resolve_call_target(*tcx, *func),
{
    match func {
        Operand::Constant(c) => match tcx.ty(c.ty) {
            Some(d) => match &d.kind {
                TyKind::FnDef(f) => Some(*f),
                TyKind::Closure(f) => Some(*f),
                _ => None,
            },
            None => None,
        },
        _ => None,
    }
}


/// The sources of the places that a call passes, in order of the
/// arguments; an argument without a source adds nothing.
pub open spec fn arg_sources(ddg: CallGraph, args: Seq<Operand>) -> Seq<CallNode>
    decreases args.len(),
{
    if args.len() == 0 {
        Seq::empty()
    } else {
        let rest = arg_sources(ddg, args.drop_last());
        match args.last() {
            Operand::Copy(p) => match ddg.origin_of(p@, true) {
                Some(n) => rest.push(n),
                None => rest,
            },
            Operand::Move(p) => match ddg.origin_of(p@, true) {
                Some(n) => rest.push(n),
                None => rest,
            },
            Operand::Constant(_) => rest,
        }
    }
}

/// The sources of the conditions of the switches that end the given
/// predecessor blocks, in order.
pub open spec fn branch_sources(ddg: CallGraph, body: Body, preds: Seq<usize>) -> Seq<CallNode>
    decreases preds.len(),
{
    if preds.len() == 0 {
        Seq::empty()
    } else {
        let rest = branch_sources(ddg, body, preds.drop_last());
        let p = preds.last();
        if (p as int) < body.basic_blocks@.len() {
            match body.basic_blocks@[p as int].terminator {
                Some(t) => match t.kind {
                    TerminatorKind::SwitchInt { discr } => match ddg.op_origin_of(discr, true) {
                        Some(n) => rest.push(n),
                        None => rest,
                    },
                    _ => rest,
                },
                None => rest,
            }
        } else {
            rest
        }
    }
}

/// The nodes that a vector of node references refers to.
pub open spec fn deref_nodes(v: Seq<&CallNode>) -> Seq<CallNode> {
    v.map_values(|n: &CallNode| *n)
}

impl<'a> CallGraph<'a> {
    /// For each node, whether a search stops there.
    fn node_marks(&self, pass_field: bool) -> (r: Vec<bool>)
        requires
            self.wf(),
        ensures
            r@ == self.marks(pass_field),
    {
        let n = call_node_count(&self.g);
        let mut marks: Vec<bool> = Vec::new();
        let mut i: usize = 0;
        while i < n
            invariant
                self.wf(),
                n == self.nodes().len(),
                i <= n,
                marks@.len() == i,
                forall|k: int| 0 <= k < i ==> #[trigger] marks@[k] == self.marks(pass_field)[k],
            decreases n - i,
        {
            let node = call_node_weight(&self.g, i).unwrap();
            assert(dbg_in_range(self.nodes()[i as int], self.var_dbg_info@.len()));
            let m = match node {
                CallNode::LocalDecl { dbg_info, .. } => *dbg_info >= 1 && self.heuristic.filter(
                    node,
                    &self.var_dbg_info,
                    self.tcx,
                ),
                CallNode::Constant { .. } => true,
                CallNode::PartialFieldRef { .. } => !pass_field,
                CallNode::FunctionNode { .. } => false,
            };
            marks.push(m);
            i = i + 1;
        }
        assert(marks@ =~= self.marks(pass_field));
        marks
    }

    /// The node found at an index that a search returned, if any.
    pub fn node_at(&self, found: Option<usize>) -> (r: Option<&CallNode>)
        requires
            found matches Some(v) ==> v < self.nodes().len(),
        ensures
            r == match found {
                Some(v) => Some(&self.nodes()[v as int]),
                None => None::<&CallNode>,
            },
    {
        match found {
            Some(v) => call_node_weight(&self.g, v),
            None => None,
        }
    }

    /// The source variable (or constant, or, when field accesses are not
    /// passed, partial field reference) that the value of a place comes
    /// from: a depth-first search from the place's node stops at the first
    /// such node it reaches.
    pub fn origin_source(&self, place: &Place, pass_field: bool) -> (r: Option<&CallNode>)
        requires
            self.wf(),
        ensures
            r == match self.origin_of(place@, pass_field) {
                Some(n) => Some(&n),
                None => None::<&CallNode>,
            },
            r matches Some(n) ==> is_goal(*n, pass_field, self.heuristic(), self.var_dbg_info@, *self.tcx),
            self.start_node(place@) is None ==> r is None,
            r is Some ==> self.start_node(place@) is Some,
    {
        let start = match self.local_decl_nodes.get(place) {
            Some(i) => Some(i),
            None => self.other_nodes.get(place),
        };
        match start {
            Some(s) => {
                let marks = self.node_marks(pass_field);
                let found = call_dfs(&self.g, s, pass_field, &marks);
                self.node_at(found)
            },
            None => None,
        }
    }

    /// The source of an operand: that of its place, or the node of its
    /// constant.
    pub fn origin_op_source(&self, op: &Operand, pass_field: bool) -> (r: Option<&CallNode>)
        requires
            self.wf(),
        ensures
            r == match self.op_origin_of(*op, pass_field) {
                Some(n) => Some(&n),
                None => None::<&CallNode>,
            },
    {
        match op {
            Operand::Move(place) | Operand::Copy(place) => self.origin_source(place, pass_field),
            Operand::Constant(c) => match self.constant_nodes.get(c.literal) {
                Some(ni) => call_node_weight(&self.g, ni),
                None => None,
            },
        }
    }

    /// The source of each operand.
    pub fn origin_ops_source(&self, ops: &[&Operand], pass_field: bool) -> (r: Vec<Option<&CallNode>>)
        requires
            self.wf(),
        ensures
            r@.len() == ops@.len(),
            forall|i: int| 0 <= i < ops@.len() ==> #[trigger] r@[i] == match self.op_origin_of(*ops@[i], pass_field) {
                Some(n) => Some(&n),
                None => None::<&CallNode>,
            },
    {
        let mut res: Vec<Option<&CallNode>> = Vec::new();
        let mut i: usize = 0;
        while i < ops.len()
            invariant
                self.wf(),
                i <= ops@.len(),
                res@.len() == i,
                forall|k: int| 0 <= k < i ==> #[trigger] res@[k] == match self.op_origin_of(*ops@[k], pass_field) {
                    Some(n) => Some(&n),
                    None => None::<&CallNode>,
                },
            decreases ops@.len() - i,
        {
            res.push(self.origin_op_source(ops[i], pass_field));
            i = i + 1;
        }
        res
    }

    /// The sources that a location depends on: for a terminator, the
    /// sources of the places a call passes, then those of the conditions of
    /// the switches that lead to its block; nothing for a statement.
    pub fn depends_source(&self, location: Location, body: &Body) -> (r: Vec<&CallNode>)
        requires
            self.wf(),
            location.block < body.basic_blocks@.len(),
            location.statement_index >= body.basic_blocks@[location.block as int].statements@.len()
                ==> body.basic_blocks@[location.block as int].terminator is Some,
        ensures
            deref_nodes(r@) == if location.statement_index < body.basic_blocks@[location.block as int].statements@.len() {
                Seq::<CallNode>::empty()
            } else {
                let t = body.basic_blocks@[location.block as int].terminator->0;
                (match t.kind {
                    TerminatorKind::Call { args, .. } => arg_sources(*self, args@),
                    _ => Seq::<CallNode>::empty(),
                }) + branch_sources(*self, *body, body.basic_blocks@[location.block as int].predecessors@)
            },
    {
        let bb = &body.basic_blocks[location.block];
        let mut nodes: Vec<&CallNode> = Vec::new();
        if location.statement_index < bb.statements.len() {
            assert(deref_nodes(nodes@) =~= Seq::<CallNode>::empty());
            return nodes;
        }
        let terminator = match &bb.terminator {
            Some(t) => t,
            None => {
                return nodes;
            },
        };
        let mut params = self.depends_param_source(terminator, body);
        let mut branches = self.depends_branch_source(location, body);
        let ghost p = params@;
        let ghost b = branches@;
        nodes.append(&mut params);
        nodes.append(&mut branches);
        assert(nodes@ == p + b);
        assert(deref_nodes(nodes@) =~= deref_nodes(p) + deref_nodes(b));
        nodes
    }

    /// The sources of the places that a call passes.
    fn depends_param_source(&self, terminator: &Terminator, body: &Body) -> (r: Vec<&CallNode>)
        requires
            self.wf(),
        ensures
            deref_nodes(r@) == match terminator.kind {
                TerminatorKind::Call { args, .. } => arg_sources(*self, args@),
                _ => Seq::<CallNode>::empty(),
            },
    {
        let mut nodes: Vec<&CallNode> = Vec::new();
        match &terminator.kind {
            TerminatorKind::Call { args, .. } => {
                let mut i: usize = 0;
                while i < args.len()
                    invariant
                        self.wf(),
                        i <= args@.len(),
                        deref_nodes(nodes@) == arg_sources(*self, args@.subrange(0, i as int)),
                    decreases args@.len() - i,
                {
                    let ghost before = nodes@;
                    assert(args@.subrange(0, i as int + 1).drop_last() =~= args@.subrange(0, i as int));
                    match &args[i] {
                        Operand::Copy(from) | Operand::Move(from) => {
                            match self.origin_source(from, true) {
                                Some(n) => {
                                    nodes.push(n);
                                    assert(deref_nodes(nodes@) =~= deref_nodes(before).push(*n));
                                },
                                None => {},
                            }
                        },
                        _ => {},
                    }
                    i = i + 1;
                }
                assert(args@.subrange(0, args@.len() as int) =~= args@);
            },
            _ => {
                assert(deref_nodes(nodes@) =~= Seq::<CallNode>::empty());
            },
        }
        nodes
    }

    /// The sources of the conditions of the switches that end the
    /// predecessors of the location's block.
    fn depends_branch_source(&self, location: Location, body: &Body) -> (r: Vec<&CallNode>)
        requires
            self.wf(),
            location.block < body.basic_blocks@.len(),
        ensures
            deref_nodes(r@) == branch_sources(*self, *body, body.basic_blocks@[location.block as int].predecessors@),
    {
        let preds = &body.basic_blocks[location.block].predecessors;
        let mut nodes: Vec<&CallNode> = Vec::new();
        let mut i: usize = 0;
        assert(deref_nodes(nodes@) =~= Seq::<CallNode>::empty());
        while i < preds.len()
            invariant
                self.wf(),
                i <= preds@.len(),
                deref_nodes(nodes@) == branch_sources(*self, *body, preds@.subrange(0, i as int)),
            decreases preds@.len() - i,
        {
            let ghost before = nodes@;
            assert(preds@.subrange(0, i as int + 1).drop_last() =~= preds@.subrange(0, i as int));
            let p = preds[i];
            if p < body.basic_blocks.len() {
                match &body.basic_blocks[p].terminator {
                    Some(t) => match &t.kind {
                        TerminatorKind::SwitchInt { discr } => {
                            match self.origin_op_source(discr, true) {
                                Some(n) => {
                                    nodes.push(n);
                                    assert(deref_nodes(nodes@) =~= deref_nodes(before).push(*n));
                                },
                                None => {},
                            }
                        },
                        _ => {},
                    },
                    None => {},
                }
            }
            i = i + 1;
        }
        assert(preds@.subrange(0, preds@.len() as int) =~= preds@);
        nodes
    }
}

} // verus!
