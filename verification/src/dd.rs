//! Data sources of places. A graph links each place to the places and
//! constants its value comes from; walking it from a place finds the user
//! variable, constant or partial field reference that the value comes from.
//! Conditions that guard a call are found through the branch conditions of
//! the blocks before it.

use vstd::prelude::*;
use petgraph::graph::{DiGraph, NodeIndex};
use petgraph::visit::{depth_first_search, Control, DfsEvent, EdgeFiltered, EdgeRef};
use crate::collections::{id_index_contents, place_index_contents, IdIndex, PlaceIndex};
use crate::conf::strings_view;
use crate::mir::{
    body_of, def_path, symbol, ty_display, ty_of, BasicBlockData, Body, Constant, DefId, Location, Operand, Place,
    PlaceView, ProjElem, Rvalue, StatementKind, Tcx, Terminator, TerminatorKind, VarDebugInfo,
};
use crate::strs::{seq_contains, str_contains, str_eq};
use crate::wpa::lemma_distinct_ids_bounded;

verus! {

/// A node of the data-source graph.
#[derive(Clone, Debug)]
pub enum DdNode {
    /// A place that is not a local, such as a field of a local.
    PartialFieldRef { base: Place },
    /// A local of a body, with its type, its debug-information entry (1-based,
    /// 0 for none), the body's argument count and the body's definition.
    LocalDecl { local: u32, ty: u32, dbg_info: usize, arg_count: usize, def_id: DefId },
    /// A constant operand.
    Constant { val: Constant },
}

/// How a node's value comes from another node's.
#[derive(Clone, Copy, Debug, PartialEq, Eq)]
pub enum DdEdge {
    /// A move or copy.
    Assign,
    /// A field access, with the field's index.
    FieldRef(u32),
    /// A reference.
    Ref,
    /// A projection other than a field access.
    IgnoredProjection,
    /// A cast.
    Cast,
}

/// Which user variables a search for sources passes over.
#[derive(Clone, Debug)]
pub enum HeuristicFilter {
    /// Passes over the variables with these names.
    NameFilter(Vec<String>),
    /// Passes over the variables whose type, as the compiler displays it,
    /// is one of these.
    TypeFilter(Vec<String>),
    /// Passes over the variables when the predicate holds (the predicate
    /// takes nothing, so it is held as its value).
    PredicateFilter(bool),
    NoFilter,
}

/// Whether the filter keeps a node as a source: a user variable is dropped
/// when a name filter names it, when a type filter names its type, or when
/// a predicate filter's predicate holds; everything else is kept.
pub open spec fn heuristic_keeps(h: HeuristicFilter, node: DdNode, dbg: Seq<VarDebugInfo>, tcx: Tcx) -> bool {
    match node {
        DdNode::LocalDecl { dbg_info, ty, .. } => if dbg_info > 0 {
            match h {
                HeuristicFilter::NameFilter(names) => !strings_view(names@).contains(
                    symbol(tcx, dbg[dbg_info - 1].name),
                ),
                HeuristicFilter::TypeFilter(tys) => !strings_view(tys@).contains(ty_display(tcx, ty)),
                HeuristicFilter::PredicateFilter(p) => !p,
                HeuristicFilter::NoFilter => true,
            }
        } else {
            true
        },
        _ => true,
    }
}

/// The node's debug-information entry, if it has one, lies within `n` entries.
pub open spec fn dbg_in_range(node: DdNode, n: nat) -> bool {
    match node {
        DdNode::LocalDecl { dbg_info, .. } => dbg_info <= n,
        _ => true,
    }
}

/// Whether one of the names is `name`.
fn names_contain(names: &Vec<String>, name: &String) -> (r: bool)
    ensures
        r == strings_view(names@).contains(name@),
{
    let mut i: usize = 0;
    while i < names.len()
        invariant
            i <= names@.len(),
            forall|j: int| 0 <= j < i ==> strings_view(names@)[j] != name@,
        decreases names@.len() - i,
    {
        if str_eq(names[i].as_str(), name.as_str()) {
            assert(strings_view(names@)[i as int] == name@);
            return true;
        }
        i = i + 1;
    }
    false
}

impl HeuristicFilter {
    /// Whether a node is kept as a source (see `heuristic_keeps`).
    pub fn filter(&self, node: &DdNode, var_dbg_info: &Vec<VarDebugInfo>, tcx: &Tcx) -> (r: bool)
        requires
            dbg_in_range(*node, var_dbg_info@.len()),
        ensures
            r == heuristic_keeps(*self, *node, var_dbg_info@, *tcx),
    {
        match node {
            DdNode::LocalDecl { dbg_info, ty, .. } => {
                if *dbg_info > 0 {
                    let info = &var_dbg_info[*dbg_info - 1];
                    match self {
                        HeuristicFilter::NameFilter(names) => {
                            let name = tcx.symbol_str(info.name);
                            !names_contain(names, &name)
                        },
                        HeuristicFilter::TypeFilter(tys) => match tcx.ty(*ty) {
                            Some(d) => !names_contain(tys, &d.display),
                            None => !names_contain(tys, &String::new()),
                        },
                        HeuristicFilter::PredicateFilter(p) => !*p,
                        HeuristicFilter::NoFilter => true,
                    }
                } else {
                    true
                }
            },
            _ => true,
        }
    }
}

/// The filter that passes over the temporaries of `assert_eq!`.
pub open spec fn spec_assert_macro_names() -> Seq<Seq<char>> {
    seq!["left_val"@, "right_val"@]
}

/// The filter that passes over the temporaries of `assert_eq!`.
pub fn assert_macro_filter() -> (r: HeuristicFilter)
    ensures
        r matches HeuristicFilter::NameFilter(names) && strings_view(names@) == spec_assert_macro_names(),
{
    let names = vec![String::from_str("left_val"), String::from_str("right_val")];
    proof {
        reveal_strlit("left_val");
        reveal_strlit("right_val");
        assert(strings_view(names@) =~= spec_assert_macro_names());
    }
    HeuristicFilter::NameFilter(names)
}

// ---------------------------------------------------------------------------
// The graph, kept in a petgraph `DiGraph`
// ---------------------------------------------------------------------------

#[verifier::external_type_specification]
#[verifier::external_body]
#[verifier::reject_recursive_types(N)]
#[verifier::reject_recursive_types(E)]
#[verifier::reject_recursive_types(Ty)]
#[verifier::reject_recursive_types(Ix)]
pub struct ExGraph<N, E, Ty, Ix>(petgraph::graph::Graph<N, E, Ty, Ix>);

#[verifier::external_type_specification]
#[verifier::external_body]
pub struct ExDirected(petgraph::Directed);

/// The nodes of a data-source graph, by index.
pub uninterp spec fn dd_nodes(g: DiGraph<DdNode, DdEdge>) -> Seq<DdNode>;

/// The edges of a data-source graph, in the order they were added: source,
/// target and weight.
pub uninterp spec fn dd_edges(g: DiGraph<DdNode, DdEdge>) -> Seq<(usize, usize, DdEdge)>;

/// `DiGraph::new`: an empty graph.
#[verifier::external_body]
fn dd_graph_new() -> (g: DiGraph<DdNode, DdEdge>)
    ensures
        dd_nodes(g).len() == 0,
        dd_edges(g).len() == 0,
{
    DiGraph::new()
}

/// `Graph::node_count`.
#[verifier::external_body]
fn dd_node_count(g: &DiGraph<DdNode, DdEdge>) -> (r: usize)
    ensures
        r == dd_nodes(*g).len(),
{
    g.node_count()
}

/// `Graph::edge_count`.
#[verifier::external_body]
fn dd_edge_count(g: &DiGraph<DdNode, DdEdge>) -> (r: usize)
    ensures
        r == dd_edges(*g).len(),
{
    g.edge_count()
}

/// `Graph::add_node`: appends a node and returns its index (petgraph panics
/// once `u32::MAX` nodes are held).
#[verifier::external_body]
fn dd_add_node(g: &mut DiGraph<DdNode, DdEdge>, n: DdNode) -> (r: usize)
    requires
        dd_nodes(*old(g)).len() < 0xFFFF_FFFF,
    ensures
        r == dd_nodes(*old(g)).len(),
        dd_nodes(*final(g)) == dd_nodes(*old(g)).push(n),
        dd_edges(*final(g)) == dd_edges(*old(g)),
{
    g.add_node(n).index()
}

/// `Graph::add_edge`: appends an edge between two existing nodes (petgraph
/// panics for a missing node, or once `u32::MAX` edges are held).
#[verifier::external_body]
fn dd_add_edge(g: &mut DiGraph<DdNode, DdEdge>, a: usize, b: usize, e: DdEdge)
    requires
        a < dd_nodes(*old(g)).len(),
        b < dd_nodes(*old(g)).len(),
        dd_edges(*old(g)).len() < 0xFFFF_FFFF,
    ensures
        dd_nodes(*final(g)) == dd_nodes(*old(g)),
        dd_edges(*final(g)) == dd_edges(*old(g)).push((a, b, e)),
{
    g.add_edge(NodeIndex::new(a), NodeIndex::new(b), e);
}

/// `Graph::node_weight`: the node at an index of the graph.
#[verifier::external_body]
fn dd_node_weight(g: &DiGraph<DdNode, DdEdge>, i: usize) -> (r: Option<&DdNode>)
    requires
        i < dd_nodes(*g).len(),
    ensures
        r == Some(&dd_nodes(*g)[i as int]),
{
    g.node_weight(NodeIndex::new(i))
}

/// Whether a search for sources follows an edge: field accesses are
/// followed only when `pass_field` holds.
pub fn follows_edge(e: &DdEdge, pass_field: bool) -> (r: bool)
    ensures
        r == (pass_field || !(*e is FieldRef)),
{
    match e {
        DdEdge::FieldRef(_) => pass_field,
        _ => true,
    }
}

/// The node at which a depth-first search from `start`, over the edges that
/// `follows_edge` keeps, first reaches a marked node by a tree edge.
pub uninterp spec fn dd_dfs_first(
    nodes: Seq<DdNode>,
    edges: Seq<(usize, usize, DdEdge)>,
    start: usize,
    pass_field: bool,
    marked: Seq<bool>,
) -> Option<usize>;

/// `petgraph::visit::depth_first_search` from `start` over the graph
/// filtered by `follows_edge`, stopping (`Control::Break`) at the first
/// tree edge whose target is marked. The contract claims that the answer is
/// a function of the graph, the start, the filter and the marks, and that
/// an answer is a marked node of the graph.
#[verifier::external_body]
fn dd_dfs(g: &DiGraph<DdNode, DdEdge>, start: usize, pass_field: bool, marked: &Vec<bool>) -> (r: Option<usize>)
    requires
        start < dd_nodes(*g).len(),
        marked@.len() == dd_nodes(*g).len(),
    ensures
        r == dd_dfs_first(dd_nodes(*g), dd_edges(*g), start, pass_field, marked@),
        r matches Some(v) ==> v < dd_nodes(*g).len() && marked@[v as int],
{
    let mut goal = None;
    let fg = EdgeFiltered::from_fn(g, |e| follows_edge(e.weight(), pass_field));
    depth_first_search(&fg, Some(NodeIndex::new(start)), |ev| match ev {
        DfsEvent::TreeEdge(_, v) if marked[v.index()] => {
            goal = Some(v.index());
            Control::Break(v)
        },
        _ => Control::Continue,
    });
    goal
}

/// Whether a search for sources stops at a node: a user variable that the
/// filter keeps, a constant, or (when field accesses are not passed) a
/// partial field reference.
pub open spec fn is_goal(node: DdNode, pass_field: bool, h: HeuristicFilter, dbg: Seq<VarDebugInfo>, tcx: Tcx) -> bool {
    match node {
        DdNode::LocalDecl { dbg_info, .. } => dbg_info >= 1 && heuristic_keeps(h, node, dbg, tcx),
        DdNode::Constant { .. } => true,
        DdNode::PartialFieldRef { .. } => !pass_field,
    }
}

/// The debug-information entry (1-based) of each place that holds a user
/// variable, among the first `n` entries; a later entry wins.
pub open spec fn dbg_map(infos: Seq<VarDebugInfo>, n: int) -> Map<PlaceView, usize>
    decreases n,
{
    if n <= 0 {
        Map::empty()
    } else {
        match infos[n - 1].place {
            Some(p) => dbg_map(infos, n - 1).insert(p@, n as usize),
            None => dbg_map(infos, n - 1),
        }
    }
}

/// The place of each user variable of the body, with its debug-information
/// entry (1-based).
pub fn get_dbg_info_mapping(body: &Body) -> (r: PlaceIndex)
    ensures
        place_index_contents(r) == dbg_map(body.var_debug_info@, body.var_debug_info@.len() as int),
{
    let mut vars_map = PlaceIndex::new();
    let mut i: usize = 0;
    assert(place_index_contents(vars_map) =~= dbg_map(body.var_debug_info@, 0));
    while i < body.var_debug_info.len()
        invariant
            i <= body.var_debug_info@.len(),
            place_index_contents(vars_map) == dbg_map(body.var_debug_info@, i as int),
        decreases body.var_debug_info@.len() - i,
    {
        match &body.var_debug_info[i].place {
            Some(place) => {
                vars_map.insert(place.copy_place(), i + 1);
            },
            None => {},
        }
        i = i + 1;
    }
    vars_map
}

/// Every entry of the map lies in `1..=n`.
pub open spec fn dbg_entries_in_range(m: Map<PlaceView, usize>, n: nat) -> bool {
    forall|k: PlaceView| #[trigger] m.contains_key(k) ==> 1 <= m[k] <= n
}

pub proof fn lemma_dbg_map_in_range(infos: Seq<VarDebugInfo>, n: int)
    requires
        0 <= n <= infos.len(),
        infos.len() <= usize::MAX,
    ensures
        dbg_entries_in_range(dbg_map(infos, n), infos.len()),
    decreases n,
{
    if n > 0 {
        lemma_dbg_map_in_range(infos, n - 1);
        let m = dbg_map(infos, n);
        assert forall|k: PlaceView| #[trigger] m.contains_key(k) implies 1 <= m[k] <= infos.len() by {
            match infos[n - 1].place {
                Some(p) => {
                    if k != p@ {
                        assert(dbg_map(infos, n - 1).contains_key(k));
                    }
                },
                None => {
                    assert(dbg_map(infos, n - 1).contains_key(k));
                },
            }
        }
    }
}

/// A copy of the debug information of a body's variables: names and spans
/// are kept, and places up to their view.
pub fn copy_dbg_info(v: &Vec<VarDebugInfo>) -> (r: Vec<VarDebugInfo>)
    ensures
        r@.len() == v@.len(),
        forall|i: int| 0 <= i < v@.len() ==> (#[trigger] r@[i]).name == v@[i].name && r@[i].span == v@[i].span,
{
    let mut r: Vec<VarDebugInfo> = Vec::new();
    let mut i: usize = 0;
    while i < v.len()
        invariant
            i <= v@.len(),
            r@.len() == i,
            forall|j: int| 0 <= j < i ==> (#[trigger] r@[j]).name == v@[j].name && r@[j].span == v@[j].span,
        decreases v@.len() - i,
    {
        let place = match &v[i].place {
            Some(p) => Some(p.copy_place()),
            None => None,
        };
        r.push(VarDebugInfo { name: v[i].name, place, span: v[i].span });
        i = i + 1;
    }
    r
}

/// The data-source graph of a body.
pub struct DataDepsGraph<'a> {
    pub tcx: &'a Tcx,
    pub g: DiGraph<DdNode, DdEdge>,
    pub place_dbg_info_map: PlaceIndex,
    pub var_dbg_info: Vec<VarDebugInfo>,
    pub heuristic: HeuristicFilter,
    pub local_decl_nodes: PlaceIndex,
    /// Nodes of places that are not locals.
    pub other_nodes: PlaceIndex,
    /// Nodes of constants, by literal.
    pub constant_nodes: IdIndex,
    /// The bodies being visited.
    pub visiting: Vec<DefId>,
}

impl<'a> DataDepsGraph<'a> {
    /// The nodes.
    pub closed spec fn nodes(self) -> Seq<DdNode> {
        dd_nodes(self.g)
    }

    /// The edges, in the order they were added.
    pub closed spec fn edges(self) -> Seq<(usize, usize, DdEdge)> {
        dd_edges(self.g)
    }

    /// The filter that a search for sources applies.
    pub closed spec fn heuristic(self) -> HeuristicFilter {
        self.heuristic
    }

    /// The node at which a search for the source of place `p` starts: the
    /// local's node, or the node of a place that is not a local.
    pub closed spec fn start_node(self, p: PlaceView) -> Option<usize> {
        if place_index_contents(self.local_decl_nodes).contains_key(p) {
            Some(place_index_contents(self.local_decl_nodes)[p])
        } else if place_index_contents(self.other_nodes).contains_key(p) {
            Some(place_index_contents(self.other_nodes)[p])
        } else {
            None
        }
    }

    /// The node of a constant literal, if the graph has one.
    pub closed spec fn constant_node(self, literal: u32) -> Option<usize> {
        if id_index_contents(self.constant_nodes).contains_key(literal) {
            Some(id_index_contents(self.constant_nodes)[literal])
        } else {
            None
        }
    }

    /// The nodes at which a search stops.
    pub closed spec fn marks(self, pass_field: bool) -> Seq<bool> {
        Seq::new(
            self.nodes().len(),
            |i: int| is_goal(self.nodes()[i], pass_field, self.heuristic, self.var_dbg_info@, *self.tcx),
        )
    }

    /// The source of a place: the first node at which a depth-first search
    /// from the place's node stops.
    pub open spec fn origin_of(self, p: PlaceView, pass_field: bool) -> Option<DdNode> {
        match self.start_node(p) {
            Some(s) => match dd_dfs_first(self.nodes(), self.edges(), s, pass_field, self.marks(pass_field)) {
                Some(v) => Some(self.nodes()[v as int]),
                None => None,
            },
            None => None,
        }
    }

    /// The source of an operand: that of its place, or the node of its
    /// constant.
    pub open spec fn op_origin_of(self, op: Operand, pass_field: bool) -> Option<DdNode> {
        match op {
            Operand::Copy(p) => self.origin_of(p@, pass_field),
            Operand::Move(p) => self.origin_of(p@, pass_field),
            Operand::Constant(c) => match self.constant_node(c.literal) {
                Some(i) => Some(self.nodes()[i as int]),
                None => None,
            },
        }
    }

    /// Every recorded node index is a node of the graph, every user-variable
    /// entry lies within the debug information, and no body is visited twice
    /// at once.
    pub closed spec fn wf(self) -> bool {
        &&& forall|k: PlaceView| #[trigger] place_index_contents(self.local_decl_nodes).contains_key(k)
            ==> place_index_contents(self.local_decl_nodes)[k] < self.nodes().len()
        &&& forall|k: PlaceView| #[trigger] place_index_contents(self.other_nodes).contains_key(k)
            ==> place_index_contents(self.other_nodes)[k] < self.nodes().len()
        &&& forall|k: u32| #[trigger] id_index_contents(self.constant_nodes).contains_key(k)
            ==> id_index_contents(self.constant_nodes)[k] < self.nodes().len()
        &&& dbg_entries_in_range(place_index_contents(self.place_dbg_info_map), self.var_dbg_info@.len())
        &&& forall|i: int| 0 <= i < self.nodes().len() ==> dbg_in_range(#[trigger] self.nodes()[i], self.var_dbg_info@.len())
        &&& self.nodes().len() <= 0xFFFF_FFFF
        &&& self.visiting@.no_duplicates()
    }

    /// `b` is `a` with more nodes and edges: the nodes of `a` are kept, and
    /// so are the crate, the debug information, the filter and the bodies
    /// being visited.
    pub closed spec fn grows(a: Self, b: Self) -> bool {
        &&& b.wf()
        &&& a.nodes().len() <= b.nodes().len()
        &&& forall|i: int| 0 <= i < a.nodes().len() ==> b.nodes()[i] == #[trigger] a.nodes()[i]
        &&& b.tcx == a.tcx
        &&& b.var_dbg_info == a.var_dbg_info
        &&& b.place_dbg_info_map == a.place_dbg_info_map
        &&& b.heuristic == a.heuristic
        &&& b.visiting@ == a.visiting@
    }

    proof fn lemma_grows_trans(a: Self, b: Self, c: Self)
        requires
            Self::grows(a, b),
            Self::grows(b, c),
        ensures
            Self::grows(a, c),
    {
        assert forall|i: int| 0 <= i < a.nodes().len() implies c.nodes()[i] == #[trigger] a.nodes()[i] by {
            assert(b.nodes()[i] == a.nodes()[i]);
        }
    }
}

impl<'a> DataDepsGraph<'a> {
    /// Builds the graph of a body: a node for each local, then, statement by
    /// statement, edges from each assigned place to the places and constants
    /// its value comes from. A call of a function whose name holds
    /// `check_assert` or `withdraw` also adds the graph of that function's
    /// body (once while it is being added).
    /// What building the graph of a body gives: the crate, the debug
    /// information and its map, and a node for each local of the body (up
    /// to petgraph's limit of nodes).
    pub open spec fn built_from(&self, tcx: Tcx, body: Body) -> bool {
        &&& self.wf()
        &&& *self.tcx == tcx
        &&& self.var_dbg_info@.len() == body.var_debug_info@.len()
        &&& forall|i: int| 0 <= i < body.var_debug_info@.len()
            ==> (#[trigger] self.var_dbg_info@[i]).name == body.var_debug_info@[i].name
        &&& place_index_contents(self.place_dbg_info_map) == dbg_map(
            body.var_debug_info@,
            body.var_debug_info@.len() as int,
        )
        &&& self.nodes().len() >= body.local_decls@.len() || self.nodes().len() == 0xFFFF_FFFF
        &&& forall|i: int| 0 <= i < body.local_decls@.len() && i < self.nodes().len() ==> #[trigger] self.nodes()[i]
            == (DdNode::LocalDecl {
                local: i as u32,
                ty: body.local_decls@[i],
                dbg_info: if dbg_map(body.var_debug_info@, body.var_debug_info@.len() as int).contains_key(
                    PlaceView { local: i as u32, projection: Seq::empty() },
                ) {
                    dbg_map(body.var_debug_info@, body.var_debug_info@.len() as int)[PlaceView {
                        local: i as u32,
                        projection: Seq::empty(),
                    }]
                } else {
                    0
                },
                arg_count: body.arg_count,
                def_id: body.def_id,
            })
    }

    pub fn new(body: &Body, tcx: &'a Tcx, heuristic: HeuristicFilter) -> (r: Self)
        ensures
            r.built_from(*tcx, *body),
            r.wf(),
            *r.tcx == *tcx,
            r.heuristic() == heuristic,
            r.var_dbg_info@.len() == body.var_debug_info@.len(),
            forall|i: int| 0 <= i < body.var_debug_info@.len()
                ==> (#[trigger] r.var_dbg_info@[i]).name == body.var_debug_info@[i].name,
            place_index_contents(r.place_dbg_info_map) == dbg_map(
                body.var_debug_info@,
                body.var_debug_info@.len() as int,
            ),
            r.nodes().len() >= body.local_decls@.len() || r.nodes().len() == 0xFFFF_FFFF,
            forall|i: int| 0 <= i < body.local_decls@.len() && i < r.nodes().len() ==> #[trigger] r.nodes()[i]
                == (DdNode::LocalDecl {
                    local: i as u32,
                    ty: body.local_decls@[i],
                    dbg_info: if dbg_map(body.var_debug_info@, body.var_debug_info@.len() as int).contains_key(
                        PlaceView { local: i as u32, projection: Seq::empty() },
                    ) {
                        dbg_map(body.var_debug_info@, body.var_debug_info@.len() as int)[PlaceView {
                            local: i as u32,
                            projection: Seq::empty(),
                        }]
                    } else {
                        0
                    },
                    arg_count: body.arg_count,
                    def_id: body.def_id,
                }),
    {
        let map = get_dbg_info_mapping(body);
        let n_infos = body.var_debug_info.len();
        proof {
            lemma_dbg_map_in_range(body.var_debug_info@, n_infos as int);
        }
        let mut ddg = DataDepsGraph {
            tcx,
            g: dd_graph_new(),
            place_dbg_info_map: map,
            var_dbg_info: copy_dbg_info(&body.var_debug_info),
            heuristic,
            local_decl_nodes: PlaceIndex::new(),
            other_nodes: PlaceIndex::new(),
            constant_nodes: IdIndex::new(),
            visiting: Vec::new(),
        };
        let ghost before = ddg;
        ddg.visit_body(body);
        proof {
            assert forall|i: int| 0 <= i < body.local_decls@.len() && i < ddg.nodes().len() implies #[trigger] ddg.nodes()[i]
                == ddg.nodes()[before.nodes().len() + i] by {}
        }
        ddg
    }

    /// Adds an edge between two nodes, unless petgraph's limit of edges is
    /// reached.
    fn link(&mut self, a: usize, b: usize, e: DdEdge)
        requires
            old(self).wf(),
            a < old(self).nodes().len(),
            b < old(self).nodes().len(),
        ensures
            Self::grows(*old(self), *final(self)),
            final(self).nodes() == old(self).nodes(),
            final(self).start_node_map() == old(self).start_node_map(),
            final(self).edges() == if old(self).edges().len() < 0xFFFF_FFFF {
                old(self).edges().push((a, b, e))
            } else {
                old(self).edges()
            },
            Self::edges_extend(*old(self), *final(self)),
            Self::nodes_kept(*old(self), *final(self)),
            *final(self) == (Self { g: final(self).g, ..*old(self) }),
    {
        if dd_edge_count(&self.g) < 0xFFFF_FFFF {
            dd_add_edge(&mut self.g, a, b, e);
        }
    }

    /// The node maps, as one value.
    pub closed spec fn start_node_map(self) -> (Map<PlaceView, usize>, Map<PlaceView, usize>, Map<u32, usize>) {
        (
            place_index_contents(self.local_decl_nodes),
            place_index_contents(self.other_nodes),
            id_index_contents(self.constant_nodes),
        )
    }

    /// The edges of `a` stay, in order, at the start of the edges of `b`.
    pub closed spec fn edges_extend(a: Self, b: Self) -> bool {
        &&& a.edges().len() <= b.edges().len()
        &&& forall|i: int| 0 <= i < a.edges().len() ==> #[trigger] b.edges()[i] == a.edges()[i]
    }

    /// Every place that has a node in `a` has the same node in `b`.
    pub closed spec fn nodes_kept(a: Self, b: Self) -> bool {
        forall|q: PlaceView| a.start_node(q) is Some ==> #[trigger] b.start_node(q) == a.start_node(q)
    }

    /// What looking up (or adding) the node of place `p` does, from `a` to
    /// `b`, returning `r`: the place is linked to its node (see
    /// `place_linked`), the node is `node_for(a, p)` when there is room and
    /// none otherwise, and a place that had a node leaves the graph as it was.
    pub open spec fn place_node_post(a: Self, b: Self, p: PlaceView, r: Option<usize>) -> bool {
        &&& Self::place_linked(a, b, 0, p, None)
        &&& (r is None <==> !Self::has_room_for(a, p))
        &&& (r matches Some(i) ==> i == Self::node_for(a, p))
        &&& Self::grows(a, b)
        &&& b.edges() == a.edges()
        &&& match r {
            Some(i) => i < b.nodes().len() && b.start_node(p) == Some(i),
            None => a.start_node(p).is_none(),
        }
        &&& a.start_node(p) is Some ==> b == a
    }

    /// Looking up the node of a place a second time gives the node that the
    /// first lookup gave, and adds no node.
    pub proof fn law_place_node_once(
        a: Self,
        b: Self,
        c: Self,
        p: PlaceView,
        r1: Option<usize>,
        r2: Option<usize>,
    )
        requires
            Self::place_node_post(a, b, p, r1),
            Self::place_node_post(b, c, p, r2),
            r1 is Some,
        ensures
            r2 == r1,
            c == b,
            c.nodes().len() == b.nodes().len(),
    {
        assert(b.start_node(p) == r1);
        assert(Self::has_room_for(b, p));
    }

    /// The node that a place gets: its recorded node, or the next new node.
    pub closed spec fn node_for(a: Self, p: PlaceView) -> usize {
        match a.start_node(p) {
            Some(i) => i,
            None => a.nodes().len() as usize,
        }
    }

    /// Whether the place has a node or one can still be added.
    pub closed spec fn has_room_for(a: Self, p: PlaceView) -> bool {
        a.start_node(p) is Some || a.nodes().len() < 0xFFFF_FFFF
    }

    /// The effect of linking `left` to the node of `place`: the place gets
    /// its node (a new partial field reference when it had none), and when
    /// an edge is given and there is room, the first edge added goes from
    /// `left` to that node.
    pub closed spec fn place_linked(a: Self, b: Self, left: usize, place: PlaceView, edge: Option<DdEdge>) -> bool {
        let n = Self::node_for(a, place);
        &&& Self::grows(a, b)
        &&& Self::edges_extend(a, b)
        &&& Self::nodes_kept(a, b)
        &&& Self::has_room_for(a, place) ==> {
            &&& b.start_node(place) == Some(n)
            &&& a.start_node(place) is None ==> (b.nodes()[n as int] matches DdNode::PartialFieldRef { base } && base@ == place)
            &&& (edge is Some && a.edges().len() < 0xFFFF_FFFF) ==> b.edges()[a.edges().len() as int] == (left, n, edge.unwrap())
        }
        &&& !Self::has_room_for(a, place) ==> b == a
    }

    /// The effect of linking `left` to a new node of the constant: the node
    /// is added and recorded for the literal, and linked from `left` while
    /// there is room for edges; nothing changes once the graph is full.
    pub closed spec fn constant_linked(a: Self, b: Self, left: usize, c: Constant, edge: DdEdge) -> bool {
        let n = a.nodes().len() as usize;
        if a.nodes().len() < 0xFFFF_FFFF {
            &&& Self::grows(a, b)
            &&& b.nodes() == a.nodes().push(DdNode::Constant { val: c })
            &&& b.start_node_map() == (a.start_node_map().0, a.start_node_map().1, a.start_node_map().2.insert(c.literal, n))
            &&& b.edges() == if a.edges().len() < 0xFFFF_FFFF { a.edges().push((left, n, edge)) } else { a.edges() }
        } else {
            b == a
        }
    }

    /// The effect of linking `left` to the source of an operand.
    pub closed spec fn op_linked(a: Self, b: Self, left: usize, op: Operand, edge: DdEdge) -> bool {
        match op {
            Operand::Copy(p) => Self::place_linked(a, b, left, p@, Some(edge)),
            Operand::Move(p) => Self::place_linked(a, b, left, p@, Some(edge)),
            Operand::Constant(c) => Self::constant_linked(a, b, left, c, edge),
        }
    }

    /// The effect of linking `left` to the sources of an rvalue: a use or a
    /// unary operation by an assignment edge, a reference by a reference
    /// edge, a cast by a cast edge; anything else adds nothing.
    pub closed spec fn rvalue_linked(a: Self, b: Self, left: usize, rv: Rvalue) -> bool {
        match rv {
            Rvalue::Use(op) => Self::op_linked(a, b, left, op, DdEdge::Assign),
            Rvalue::Ref(p) => Self::place_linked(a, b, left, p@, Some(DdEdge::Ref)),
            Rvalue::Cast(op, _) => Self::op_linked(a, b, left, op, DdEdge::Cast),
            Rvalue::UnaryOp(op) => Self::op_linked(a, b, left, op, DdEdge::Assign),
            _ => b == a,
        }
    }

    /// The effect of an assignment: the assigned place gets its node (as a
    /// source would), and that node is linked to the sources of the rvalue.
    pub closed spec fn assign_linked(a: Self, b: Self, place: PlaceView, rv: Rvalue) -> bool {
        if Self::has_room_for(a, place) {
            exists|mid: Self| #[trigger] Self::rvalue_linked(mid, b, Self::node_for(a, place), rv)
                && Self::place_linked(a, mid, 0, place, None) && Self::node_for(a, place) < mid.nodes().len()
        } else {
            b == a
        }
    }

    proof fn lemma_kept_trans(a: Self, b: Self, c: Self)
        requires
            Self::grows(a, b),
            Self::grows(b, c),
            Self::edges_extend(a, b),
            Self::edges_extend(b, c),
            Self::nodes_kept(a, b),
            Self::nodes_kept(b, c),
        ensures
            Self::grows(a, c),
            Self::edges_extend(a, c),
            Self::nodes_kept(a, c),
    {
        Self::lemma_grows_trans(a, b, c);
        assert forall|i: int| 0 <= i < a.edges().len() implies #[trigger] c.edges()[i] == a.edges()[i] by {
            assert(b.edges()[i] == a.edges()[i]);
        }
        assert forall|q: PlaceView| a.start_node(q) is Some implies #[trigger] c.start_node(q) == a.start_node(q) by {
            assert(b.start_node(q) == a.start_node(q));
        }
    }

    /// The node of a place used as a source: its recorded node, or a new
    /// partial field reference (none once petgraph's limit of nodes is reached).
    fn get_right_place_node(&mut self, place: &Place) -> (r: Option<usize>)
        requires
            old(self).wf(),
        ensures
            Self::place_node_post(*old(self), *final(self), place@, r),
            Self::place_linked(*old(self), *final(self), 0, place@, None),
            r is None <==> !Self::has_room_for(*old(self), place@),
            r matches Some(i) ==> i == Self::node_for(*old(self), place@),
            Self::grows(*old(self), *final(self)),
            final(self).edges() == old(self).edges(),
            match r {
                Some(i) => i < final(self).nodes().len() && final(self).start_node(place@) == Some(i),
                None => old(self).start_node(place@).is_none(),
            },
    {
        match self.local_decl_nodes.get(place) {
            Some(i) => {
                return Some(i);
            },
            None => {},
        }
        match self.other_nodes.get(place) {
            Some(i) => {
                return Some(i);
            },
            None => {},
        }
        if dd_node_count(&self.g) >= 0xFFFF_FFFF {
            return None;
        }
        let ni = dd_add_node(&mut self.g, DdNode::PartialFieldRef { base: place.copy_place() });
        self.other_nodes.insert(place.copy_place(), ni);
        Some(ni)
    }

    /// The node of an assigned place; the same as for a source.
    pub fn get_left_place_node(&mut self, place: &Place) -> (r: Option<usize>)
        requires
            old(self).wf(),
        ensures
            Self::place_node_post(*old(self), *final(self), place@, r),
            Self::place_linked(*old(self), *final(self), 0, place@, None),
            r is None <==> !Self::has_room_for(*old(self), place@),
            r matches Some(i) ==> i == Self::node_for(*old(self), place@),
            Self::grows(*old(self), *final(self)),
            final(self).edges() == old(self).edges(),
            match r {
                Some(i) => i < final(self).nodes().len() && final(self).start_node(place@) == Some(i),
                None => old(self).start_node(place@).is_none(),
            },
    {
        self.get_right_place_node(place)
    }

    /// Links `left` to the node of `place` by `edge`, then each field access
    /// of the place to its base, down to the local; projections other than
    /// field accesses are passed over and linked at the end.
    fn handle_place(&mut self, left: usize, place: &Place, edge: Option<DdEdge>)
        requires
            old(self).wf(),
            left < old(self).nodes().len(),
        ensures
            Self::grows(*old(self), *final(self)),
            Self::place_linked(*old(self), *final(self), left, place@, edge),
    {
        let ghost n = Self::node_for(*old(self), place@);
        let mut cur = match self.get_right_place_node(place) {
            Some(i) => i,
            None => {
                return;
            },
        };
        let ghost first = *self;
        match edge {
            Some(e) => {
                self.link(left, cur, e);
            },
            None => {},
        }
        proof {
            if edge is Some {
                Self::lemma_kept_trans(*old(self), first, *self);
            }
        }
        let mut cursor = place.copy_place();
        loop
            invariant
                Self::grows(*old(self), *self),
                cur < self.nodes().len(),
                Self::edges_extend(*old(self), *self),
                Self::nodes_kept(*old(self), *self),
                Self::has_room_for(*old(self), place@),
                n == Self::node_for(*old(self), place@),
                self.start_node(place@) == Some(n),
                old(self).start_node(place@) is None ==> (self.nodes()[n as int] matches DdNode::PartialFieldRef { base } && base@ == place@),
                (edge is Some && old(self).edges().len() < 0xFFFF_FFFF) ==> self.edges()[old(self).edges().len() as int] == (left, n, edge.unwrap()),
                (edge is Some && old(self).edges().len() < 0xFFFF_FFFF) ==> self.edges().len() > old(self).edges().len(),
            decreases cursor.projection@.len(),
        {
            match cursor.last_projection() {
                Some((base, elem)) => {
                    match elem {
                        ProjElem::Field { field, .. } => {
                            let ghost s0 = *self;
                            let b = match self.get_right_place_node(&base) {
                                Some(i) => i,
                                None => {
                                    assert(*self == s0);
                                    return;
                                },
                            };
                            let ghost s1 = *self;
                            proof {
                                Self::lemma_kept_trans(*old(self), s0, s1);
                            }
                            self.link(cur, b, DdEdge::FieldRef(field));
                            proof {
                                Self::lemma_kept_trans(*old(self), s1, *self);
                            }
                            cur = b;
                        },
                        _ => {},
                    }
                    cursor = base;
                },
                None => {
                    break;
                },
            }
        }
        let ghost s2 = *self;
        let last = match self.get_right_place_node(&cursor) {
            Some(i) => i,
            None => {
                assert(*self == s2);
                return;
            },
        };
        let ghost s3 = *self;
        proof {
            Self::lemma_kept_trans(*old(self), s2, s3);
        }
        if last != cur {
            self.link(cur, last, DdEdge::IgnoredProjection);
            proof {
                Self::lemma_kept_trans(*old(self), s3, *self);
            }
        }
    }

    /// Links `left` to a new node of the constant.
    fn handle_constant(&mut self, left: usize, c: &Constant, edge: DdEdge)
        requires
            old(self).wf(),
            left < old(self).nodes().len(),
        ensures
            Self::grows(*old(self), *final(self)),
            Self::constant_linked(*old(self), *final(self), left, *c, edge),
    {
        if dd_node_count(&self.g) >= 0xFFFF_FFFF {
            return;
        }
        let ni = dd_add_node(&mut self.g, DdNode::Constant { val: c.copy() });
        self.constant_nodes.insert(c.literal, ni);
        self.link(left, ni, edge);
    }

    /// Links `left` to the source of an operand.
    fn handle_op(&mut self, left: usize, op: &Operand, edge: DdEdge)
        requires
            old(self).wf(),
            left < old(self).nodes().len(),
        ensures
            Self::grows(*old(self), *final(self)),
            Self::op_linked(*old(self), *final(self), left, *op, edge),
    {
        match op {
            Operand::Move(from) | Operand::Copy(from) => self.handle_place(left, from, Some(edge)),
            Operand::Constant(c) => self.handle_constant(left, c, edge),
        }
    }

    /// Looks up the source of the right operand of a binary operation;
    /// nothing is added to the graph.
    fn handle_binary_op(&self, right: &Operand)
        requires
            self.wf(),
    {
        let _origin = self.origin_op_source(right, true);
    }

    /// Links an assigned place's node to the sources of the rvalue.
    fn handle_rvalue(&mut self, left: usize, rvalue: &Rvalue)
        requires
            old(self).wf(),
            left < old(self).nodes().len(),
        ensures
            Self::grows(*old(self), *final(self)),
            Self::rvalue_linked(*old(self), *final(self), left, *rvalue),
    {
        match rvalue {
            Rvalue::Use(op) => self.handle_op(left, op, DdEdge::Assign),
            Rvalue::Ref(p) => self.handle_place(left, p, Some(DdEdge::Ref)),
            Rvalue::Cast(op, _ty) => self.handle_op(left, op, DdEdge::Cast),
            Rvalue::BinaryOp(_op, _a, b) => self.handle_binary_op(b),
            Rvalue::UnaryOp(op) => self.handle_op(left, op, DdEdge::Assign),
            _ => {},
        }
    }

    /// An assignment links the assigned place to the sources of its value.
    fn visit_assign(&mut self, place: &Place, rvalue: &Rvalue)
        requires
            old(self).wf(),
        ensures
            Self::grows(*old(self), *final(self)),
            Self::assign_linked(*old(self), *final(self), place@, *rvalue),
    {
        match self.get_left_place_node(place) {
            Some(left) => {
                let ghost mid = *self;
                self.handle_rvalue(left, rvalue);
                assert(Self::rvalue_linked(mid, *self, Self::node_for(*old(self), place@), *rvalue));
            },
            None => {},
        }
    }

    /// Whether the body is being visited.
    fn is_visiting(&self, d: DefId) -> (r: bool)
        ensures
            r == self.visiting@.contains(d),
    {
        let mut i: usize = 0;
        while i < self.visiting.len()
            invariant
                i <= self.visiting@.len(),
                forall|j: int| 0 <= j < i ==> self.visiting@[j] != d,
            decreases self.visiting@.len() - i,
        {
            if self.visiting[i] == d {
                assert(self.visiting@[i as int] == d);
                return true;
            }
            i = i + 1;
        }
        false
    }

    /// Adds the graph of a body: a node for each local, then the edges of
    /// each assignment, block by block; a body that is already being added
    /// is skipped.
    fn visit_body(&mut self, body: &Body)
        requires
            old(self).wf(),
        ensures
            Self::grows(*old(self), *final(self)),
            !old(self).visiting@.contains(body.def_id) ==> final(self).nodes().len() >= old(self).nodes().len()
                + body.local_decls@.len() || final(self).nodes().len() == 0xFFFF_FFFF,
            !old(self).visiting@.contains(body.def_id) ==> forall|i: int|
                0 <= i < body.local_decls@.len() && old(self).nodes().len() + i < final(self).nodes().len()
                    ==> #[trigger] final(self).nodes()[old(self).nodes().len() + i] == (DdNode::LocalDecl {
                    local: i as u32,
                    ty: body.local_decls@[i],
                    dbg_info: if place_index_contents(old(self).place_dbg_info_map).contains_key(
                        PlaceView { local: i as u32, projection: Seq::empty() },
                    ) {
                        place_index_contents(old(self).place_dbg_info_map)[PlaceView {
                            local: i as u32,
                            projection: Seq::empty(),
                        }]
                    } else {
                        0
                    },
                    arg_count: body.arg_count,
                    def_id: body.def_id,
                }),
        decreases 0x1_0000_0000 - old(self).visiting@.len(), 0int,
    {
        if self.is_visiting(body.def_id) {
            return;
        }
        self.visiting.push(body.def_id);
        proof {
            assert(self.visiting@.no_duplicates()) by {
                assert forall|a: int, b: int| 0 <= a < b < self.visiting@.len() implies self.visiting@[a]
                    != self.visiting@[b] by {
                    if b == self.visiting@.len() - 1 {
                        assert(old(self).visiting@.contains(old(self).visiting@[a]));
                    }
                }
            }
            lemma_distinct_ids_bounded(self.visiting@);
        }
        let ghost start = *self;
        let n0 = dd_node_count(&self.g);
        let mut i: usize = 0;
        while i < body.local_decls.len()
            invariant
                Self::grows(start, *self),
                n0 == start.nodes().len(),
                i <= body.local_decls@.len(),
                self.nodes().len() == n0 + i,
                forall|k: int| 0 <= k < i ==> #[trigger] self.nodes()[n0 + k] == (DdNode::LocalDecl {
                    local: k as u32,
                    ty: body.local_decls@[k],
                    dbg_info: if place_index_contents(start.place_dbg_info_map).contains_key(
                        PlaceView { local: k as u32, projection: Seq::empty() },
                    ) {
                        place_index_contents(start.place_dbg_info_map)[PlaceView {
                            local: k as u32,
                            projection: Seq::empty(),
                        }]
                    } else {
                        0
                    },
                    arg_count: body.arg_count,
                    def_id: body.def_id,
                }),
            ensures
                i == body.local_decls@.len() || self.nodes().len() == 0xFFFF_FFFF,
            decreases body.local_decls@.len() - i,
        {
            if dd_node_count(&self.g) >= 0xFFFF_FFFF || i >= 0xFFFF_FFFF {
                break;
            }
            let place = Place::from_local(i as u32);
            let dbg_info = match self.place_dbg_info_map.get(&place) {
                Some(d) => d,
                None => 0,
            };
            let node = DdNode::LocalDecl {
                local: i as u32,
                ty: body.local_decls[i],
                dbg_info,
                arg_count: body.arg_count,
                def_id: body.def_id,
            };
            let ni = dd_add_node(&mut self.g, node);
            self.local_decl_nodes.insert(place, ni);
            i = i + 1;
        }
        let ghost mid = *self;
        let mut b: usize = 0;
        while b < body.basic_blocks.len()
            invariant
                Self::grows(mid, *self),
                self.visiting@.len() <= 0x1_0000_0000,
                self.visiting@.len() == old(self).visiting@.len() + 1,
            decreases body.basic_blocks@.len() - b,
        {
            let bb: &BasicBlockData = &body.basic_blocks[b];
            let mut j: usize = 0;
            while j < bb.statements.len()
                invariant
                    Self::grows(mid, *self),
                    self.visiting@.len() <= 0x1_0000_0000,
                    self.visiting@.len() == old(self).visiting@.len() + 1,
                decreases bb.statements@.len() - j,
            {
                match &bb.statements[j].kind {
                    StatementKind::Assign(place, rvalue) => self.visit_assign(place, rvalue),
                    _ => {},
                }
                j = j + 1;
            }
            match &bb.terminator {
                Some(t) => self.visit_terminator(t),
                None => {},
            }
            b = b + 1;
        }
        let ghost before_pop = *self;
        self.visiting.pop();
        proof {
            assert(self.visiting@ =~= old(self).visiting@);
            Self::lemma_grows_trans(start, mid, before_pop);
            assert(Self::grows(*old(self), *self)) by {
                assert forall|k: int| 0 <= k < old(self).nodes().len() implies self.nodes()[k]
                    == #[trigger] old(self).nodes()[k] by {
                    assert(start.nodes()[k] == old(self).nodes()[k]);
                }
            }
            assert forall|k: int|
                0 <= k < body.local_decls@.len() && n0 + k < self.nodes().len() implies #[trigger] self.nodes()[n0 + k]
                == mid.nodes()[n0 + k] && k < i by {
                assert(self.nodes()[n0 + k] == mid.nodes()[n0 + k]);
            }
        }
    }

    /// `b` holds, after the nodes of `a`, a node for each local of the body
    /// (or the graph is full).
    pub closed spec fn locals_added(a: Self, b: Self, body: Body) -> bool {
        b.nodes().len() >= a.nodes().len() + body.local_decls@.len() || b.nodes().len() == 0xFFFF_FFFF
    }

    /// A call of a constant whose name holds `check_assert` or `withdraw`
    /// adds the graph of every function item with a body whose path is that
    /// name.
    fn visit_terminator(&mut self, terminator: &Terminator)
        requires
            old(self).wf(),
            old(self).visiting@.len() <= 0x1_0000_0000,
        ensures
            Self::grows(*old(self), *final(self)),
            revisit_name(*terminator) is None ==> *final(self) == *old(self),
            revisit_name(*terminator) matches Some(name) ==> forall|k: int|
                0 <= k < old(self).tcx.fn_items@.len() && #[trigger] body_of(*old(self).tcx, old(self).tcx.fn_items@[k]) is Some
                    && def_path(*old(self).tcx, old(self).tcx.fn_items@[k]) == name && !old(self).visiting@.contains(
                    body_of(*old(self).tcx, old(self).tcx.fn_items@[k])->0.def_id,
                ) ==> Self::locals_added(*old(self), *final(self), body_of(*old(self).tcx, old(self).tcx.fn_items@[k])->0),
        decreases 0x1_0000_0000 - old(self).visiting@.len(), 1int,
    {
        match &terminator.kind {
            TerminatorKind::Call { func: Operand::Constant(c), .. } => {
                let name = c.display.as_str();
                if str_contains(name, "check_assert") || str_contains(name, "withdraw") {
                    let tcx: &'a Tcx = self.tcx;
                    let mut k: usize = 0;
                    while k < tcx.fn_items.len()
                        invariant
                            Self::grows(*old(self), *self),
                            *self.tcx == *tcx,
                            *old(self).tcx == *tcx,
                            self.visiting@ == old(self).visiting@,
                            self.visiting@.len() <= 0x1_0000_0000,
                            name@ == c.display@,
                            k <= tcx.fn_items@.len(),
                            forall|j: int|
                                0 <= j < k && #[trigger] body_of(*tcx, tcx.fn_items@[j]) is Some && def_path(*tcx, tcx.fn_items@[j])
                                    == name@ && !old(self).visiting@.contains(body_of(*tcx, tcx.fn_items@[j])->0.def_id)
                                    ==> Self::locals_added(*old(self), *self, body_of(*tcx, tcx.fn_items@[j])->0),
                        decreases tcx.fn_items@.len() - k,
                    {
                        let d = tcx.fn_items[k];
                        let ghost before = *self;
                        match tcx.optimized_mir(d) {
                            Some(callee) => {
                                let path = tcx.def_path_str(d);
                                if str_eq(path.as_str(), name) {
                                    self.visit_body(callee);
                                }
                            },
                            None => {},
                        }
                        assert forall|j: int|
                            0 <= j < k + 1 && #[trigger] body_of(*tcx, tcx.fn_items@[j]) is Some && def_path(*tcx, tcx.fn_items@[j])
                                == name@ && !old(self).visiting@.contains(body_of(*tcx, tcx.fn_items@[j])->0.def_id)
                                implies Self::locals_added(*old(self), *self, body_of(*tcx, tcx.fn_items@[j])->0) by {
                            if j < k {
                                assert(Self::locals_added(*old(self), before, body_of(*tcx, tcx.fn_items@[j])->0));
                            }
                        }
                        k = k + 1;
                    }
                }
            },
            _ => {},
        }
    }
}

/// The name of the function whose graph a terminator adds: the display of a
/// called constant whose name holds `check_assert` or `withdraw`.
pub open spec fn revisit_name(t: Terminator) -> Option<Seq<char>> {
    match t.kind {
        TerminatorKind::Call { func: Operand::Constant(c), .. } => if seq_contains(c.display@, "check_assert"@)
            || seq_contains(c.display@, "withdraw"@) {
            Some(c.display@)
        } else {
            None
        },
        _ => None,
    }
}

/// The sources of the places that a call passes, in order of the
/// arguments; an argument without a source adds nothing.
pub open spec fn arg_sources(ddg: DataDepsGraph, args: Seq<Operand>) -> Seq<DdNode>
    decreases args.len(),
{
    if args.len() == 0 {
        Seq::empty()
    } else {
        let rest = arg_sources(ddg, args.drop_last());
        match args.last() {
            Operand::Copy(p) => match ddg.origin_of(p@, true) {
                Some(n) => rest.push(n),
                None => rest,
            },
            Operand::Move(p) => match ddg.origin_of(p@, true) {
                Some(n) => rest.push(n),
                None => rest,
            },
            Operand::Constant(_) => rest,
        }
    }
}

/// The sources of the conditions of the switches that end the given
/// predecessor blocks, in order.
pub open spec fn branch_sources(ddg: DataDepsGraph, body: Body, preds: Seq<usize>) -> Seq<DdNode>
    decreases preds.len(),
{
    if preds.len() == 0 {
        Seq::empty()
    } else {
        let rest = branch_sources(ddg, body, preds.drop_last());
        let p = preds.last();
        if (p as int) < body.basic_blocks@.len() {
            match body.basic_blocks@[p as int].terminator {
                Some(t) => match t.kind {
                    TerminatorKind::SwitchInt { discr } => match ddg.op_origin_of(discr, true) {
                        Some(n) => rest.push(n),
                        None => rest,
                    },
                    _ => rest,
                },
                None => rest,
            }
        } else {
            rest
        }
    }
}

/// The nodes that a vector of node references refers to.
pub open spec fn deref_nodes(v: Seq<&DdNode>) -> Seq<DdNode> {
    v.map_values(|n: &DdNode| *n)
}

impl<'a> DataDepsGraph<'a> {
    /// For each node, whether a search stops there.
    fn node_marks(&self, pass_field: bool) -> (r: Vec<bool>)
        requires
            self.wf(),
        ensures
            r@ == self.marks(pass_field),
    {
        let n = dd_node_count(&self.g);
        let mut marks: Vec<bool> = Vec::new();
        let mut i: usize = 0;
        while i < n
            invariant
                self.wf(),
                n == self.nodes().len(),
                i <= n,
                marks@.len() == i,
                forall|k: int| 0 <= k < i ==> #[trigger] marks@[k] == self.marks(pass_field)[k],
            decreases n - i,
        {
            let node = dd_node_weight(&self.g, i).unwrap();
            assert(dbg_in_range(self.nodes()[i as int], self.var_dbg_info@.len()));
            let m = match node {
                DdNode::LocalDecl { dbg_info, .. } => *dbg_info >= 1 && self.heuristic.filter(
                    node,
                    &self.var_dbg_info,
                    self.tcx,
                ),
                DdNode::Constant { .. } => true,
                DdNode::PartialFieldRef { .. } => !pass_field,
            };
            marks.push(m);
            i = i + 1;
        }
        assert(marks@ =~= self.marks(pass_field));
        marks
    }

    /// The node found at an index that a search returned, if any.
    pub fn node_at(&self, found: Option<usize>) -> (r: Option<&DdNode>)
        requires
            found matches Some(v) ==> v < self.nodes().len(),
        ensures
            r == match found {
                Some(v) => Some(&self.nodes()[v as int]),
                None => None::<&DdNode>,
            },
    {
        match found {
            Some(v) => dd_node_weight(&self.g, v),
            None => None,
        }
    }

    /// The source variable (or constant, or, when field accesses are not
    /// passed, partial field reference) that the value of a place comes
    /// from: a depth-first search from the place's node stops at the first
    /// such node it reaches.
    pub fn origin_source(&self, place: &Place, pass_field: bool) -> (r: Option<&DdNode>)
        requires
            self.wf(),
        ensures
            r == match self.origin_of(place@, pass_field) {
                Some(n) => Some(&n),
                None => None::<&DdNode>,
            },
            r matches Some(n) ==> is_goal(*n, pass_field, self.heuristic(), self.var_dbg_info@, *self.tcx),
            self.start_node(place@) is None ==> r is None,
            r is Some ==> self.start_node(place@) is Some,
    {
        let start = match self.local_decl_nodes.get(place) {
            Some(i) => Some(i),
            None => self.other_nodes.get(place),
        };
        match start {
            Some(s) => {
                let marks = self.node_marks(pass_field);
                let found = dd_dfs(&self.g, s, pass_field, &marks);
                self.node_at(found)
            },
            None => None,
        }
    }

    /// The source of an operand: that of its place, or the node of its
    /// constant.
    pub fn origin_op_source(&self, op: &Operand, pass_field: bool) -> (r: Option<&DdNode>)
        requires
            self.wf(),
        ensures
            r == match self.op_origin_of(*op, pass_field) {
                Some(n) => Some(&n),
                None => None::<&DdNode>,
            },
    {
        match op {
            Operand::Move(place) | Operand::Copy(place) => self.origin_source(place, pass_field),
            Operand::Constant(c) => match self.constant_nodes.get(c.literal) {
                Some(ni) => dd_node_weight(&self.g, ni),
                None => None,
            },
        }
    }

    /// The source of each operand.
    pub fn origin_ops_source(&self, ops: &[&Operand], pass_field: bool) -> (r: Vec<Option<&DdNode>>)
        requires
            self.wf(),
        ensures
            r@.len() == ops@.len(),
            forall|i: int| 0 <= i < ops@.len() ==> #[trigger] r@[i] == match self.op_origin_of(*ops@[i], pass_field) {
                Some(n) => Some(&n),
                None => None::<&DdNode>,
            },
    {
        let mut res: Vec<Option<&DdNode>> = Vec::new();
        let mut i: usize = 0;
        while i < ops.len()
            invariant
                self.wf(),
                i <= ops@.len(),
                res@.len() == i,
                forall|k: int| 0 <= k < i ==> #[trigger] res@[k] == match self.op_origin_of(*ops@[k], pass_field) {
                    Some(n) => Some(&n),
                    None => None::<&DdNode>,
                },
            decreases ops@.len() - i,
        {
            res.push(self.origin_op_source(ops[i], pass_field));
            i = i + 1;
        }
        res
    }

    /// The sources that a location depends on: for a terminator, the
    /// sources of the places a call passes, then those of the conditions of
    /// the switches that lead to its block; nothing for a statement.
    pub fn depends_source(&self, location: Location, body: &Body) -> (r: Vec<&DdNode>)
        requires
            self.wf(),
            location.block < body.basic_blocks@.len(),
            location.statement_index >= body.basic_blocks@[location.block as int].statements@.len()
                ==> body.basic_blocks@[location.block as int].terminator is Some,
        ensures
            deref_nodes(r@) == if location.statement_index < body.basic_blocks@[location.block as int].statements@.len() {
                Seq::<DdNode>::empty()
            } else {
                let t = body.basic_blocks@[location.block as int].terminator->0;
                (match t.kind {
                    TerminatorKind::Call { args, .. } => arg_sources(*self, args@),
                    _ => Seq::<DdNode>::empty(),
                }) + branch_sources(*self, *body, body.basic_blocks@[location.block as int].predecessors@)
            },
    {
        let bb = &body.basic_blocks[location.block];
        let mut nodes: Vec<&DdNode> = Vec::new();
        if location.statement_index < bb.statements.len() {
            assert(deref_nodes(nodes@) =~= Seq::<DdNode>::empty());
            return nodes;
        }
        let terminator = match &bb.terminator {
            Some(t) => t,
            None => {
                return nodes;
            },
        };
        let mut params = self.depends_param_source(terminator, body);
        let mut branches = self.depends_branch_source(location, body);
        let ghost p = params@;
        let ghost b = branches@;
        nodes.append(&mut params);
        nodes.append(&mut branches);
        assert(nodes@ == p + b);
        assert(deref_nodes(nodes@) =~= deref_nodes(p) + deref_nodes(b));
        nodes
    }

    /// The sources of the places that a call passes.
    fn depends_param_source(&self, terminator: &Terminator, body: &Body) -> (r: Vec<&DdNode>)
        requires
            self.wf(),
        ensures
            deref_nodes(r@) == match terminator.kind {
                TerminatorKind::Call { args, .. } => arg_sources(*self, args@),
                _ => Seq::<DdNode>::empty(),
            },
    {
        let mut nodes: Vec<&DdNode> = Vec::new();
        match &terminator.kind {
            TerminatorKind::Call { args, .. } => {
                let mut i: usize = 0;
                while i < args.len()
                    invariant
                        self.wf(),
                        i <= args@.len(),
                        deref_nodes(nodes@) == arg_sources(*self, args@.subrange(0, i as int)),
                    decreases args@.len() - i,
                {
                    let ghost before = nodes@;
                    assert(args@.subrange(0, i as int + 1).drop_last() =~= args@.subrange(0, i as int));
                    match &args[i] {
                        Operand::Copy(from) | Operand::Move(from) => {
                            match self.origin_source(from, true) {
                                Some(n) => {
                                    nodes.push(n);
                                    assert(deref_nodes(nodes@) =~= deref_nodes(before).push(*n));
                                },
                                None => {},
                            }
                        },
                        _ => {},
                    }
                    i = i + 1;
                }
                assert(args@.subrange(0, args@.len() as int) =~= args@);
            },
            _ => {
                assert(deref_nodes(nodes@) =~= Seq::<DdNode>::empty());
            },
        }
        nodes
    }

    /// The sources of the conditions of the switches that end the
    /// predecessors of the location's block.
    fn depends_branch_source(&self, location: Location, body: &Body) -> (r: Vec<&DdNode>)
        requires
            self.wf(),
            location.block < body.basic_blocks@.len(),
        ensures
            deref_nodes(r@) == branch_sources(*self, *body, body.basic_blocks@[location.block as int].predecessors@),
    {
        let preds = &body.basic_blocks[location.block].predecessors;
        let mut nodes: Vec<&DdNode> = Vec::new();
        let mut i: usize = 0;
        assert(deref_nodes(nodes@) =~= Seq::<DdNode>::empty());
        while i < preds.len()
            invariant
                self.wf(),
                i <= preds@.len(),
                deref_nodes(nodes@) == branch_sources(*self, *body, preds@.subrange(0, i as int)),
            decreases preds@.len() - i,
        {
            let ghost before = nodes@;
            assert(preds@.subrange(0, i as int + 1).drop_last() =~= preds@.subrange(0, i as int));
            let p = preds[i];
            if p < body.basic_blocks.len() {
                match &body.basic_blocks[p].terminator {
                    Some(t) => match &t.kind {
                        TerminatorKind::SwitchInt { discr } => {
                            match self.origin_op_source(discr, true) {
                                Some(n) => {
                                    nodes.push(n);
                                    assert(deref_nodes(nodes@) =~= deref_nodes(before).push(*n));
                                },
                                None => {},
                            }
                        },
                        _ => {},
                    },
                    None => {},
                }
            }
            i = i + 1;
        }
        assert(preds@.subrange(0, preds@.len() as int) =~= preds@);
        nodes
    }
}

} // verus!
