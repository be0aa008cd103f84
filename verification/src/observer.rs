//! The state-graph observer.
//!
//! A [`StateObserver`] is reset before each execution, receives
//! [`record`](StateObserver::record) calls while the target runs, and
//! incrementally inserts vertices and edges into a directed graph keyed by
//! protocol-state values.  It flags whether the current execution produced
//! any edge that was not already in the graph.
//!
//! A protocol state is a `u64`: any value the executor derives from one
//! response (a numeric response code, a short byte tuple read as an integer).
//! Node ids are dense `u32` values assigned in first-seen order and never
//! reused; an edge is stored as a single `u64` with the source id in the
//! upper half and the destination id in the lower half.

use vstd::prelude::*;

use std::io::Write;
use vstd::arithmetic::div_mod::lemma_fundamental_div_mod_converse;
use vstd::string::StringExecFns;

verus! {

broadcast use vstd::seq_lib::seq_to_set_is_finite;

/// The packed form of the directed transition `from -> to`: `from` in the
/// upper 32 bits, `to` in the lower 32 bits.
pub open spec fn spec_pack_transition(from: u32, to: u32) -> u64 {
    (from * 0x1_0000_0000 + to) as u64
}

/// The source id of a packed transition.
pub open spec fn spec_unpack_from(transition: u64) -> u32 {
    (transition / 0x1_0000_0000) as u32
}

/// The destination id of a packed transition.
pub open spec fn spec_unpack_to(transition: u64) -> u32 {
    (transition % 0x1_0000_0000) as u32
}

/// Unpacking inverts packing.
pub proof fn lemma_pack_unpack(from: u32, to: u32)
    ensures
        spec_unpack_from(spec_pack_transition(from, to)) == from,
        spec_unpack_to(spec_pack_transition(from, to)) == to,
{
    lemma_fundamental_div_mod_converse(
        from * 0x1_0000_0000 + to,
        0x1_0000_0000,
        from as int,
        to as int,
    );
}

/// Pack a directed transition into one integer.
pub fn pack_transition(from: u32, to: u32) -> (r: u64)
    ensures
        r == spec_pack_transition(from, to),
{
    (from as u64) * 0x1_0000_0000 + (to as u64)
}

/// Recover the `(from, to)` pair from a packed transition.
pub fn unpack_transition(transition: u64) -> (r: (u32, u32))
    ensures
        r.0 == spec_unpack_from(transition),
        r.1 == spec_unpack_to(transition),
{
    ((transition / 0x1_0000_0000) as u32, (transition % 0x1_0000_0000) as u32)
}

/// The sequence is strictly increasing: an ordered set.
pub open spec fn sorted_strict(s: Seq<u64>) -> bool {
    forall|i: int, j: int| 0 <= i < j < s.len() ==> s[i] < s[j]
}

/// The abstract value of a state graph: the states seen so far in first-seen
/// order (a state's id is its position), the set of packed edges, the id of
/// the state last recorded in the current execution, and whether the current
/// execution inserted a previously unseen edge.
#[verifier::ext_equal]
pub ghost struct GraphModel {
    /// The recorded states, in first-seen order; a state's id is its index.
    pub nodes: Seq<u64>,
    /// The packed directed transitions observed so far.
    pub edges: Set<u64>,
    /// The id of the most recently recorded state of this execution, if any.
    pub last: Option<u32>,
    /// Whether this execution inserted an edge that was not already present.
    pub fresh: bool,
}

/// The id of state `s` in `nodes`: the position where it is stored.
pub open spec fn node_id_of(nodes: Seq<u64>, s: u64) -> int {
    choose|i: int| 0 <= i < nodes.len() && nodes[i] == s
}

/// In a duplicate-free node list the id of a stored state is exactly its
/// position.
pub proof fn lemma_node_id_unique(nodes: Seq<u64>, s: u64, k: int)
    requires
        nodes.no_duplicates(),
        0 <= k < nodes.len(),
        nodes[k] == s,
    ensures
        node_id_of(nodes, s) == k,
{
    assert(0 <= k < nodes.len() && nodes[k] == s);
    let i = node_id_of(nodes, s);
    assert(0 <= i < nodes.len() && nodes[i] == s);
    if i != k {
        assert(nodes[i] != nodes[k]);
    }
}

/// What one `record(s)` call does to the abstract graph: look up or append
/// `s`, obtaining its id; when a previous state exists and differs, insert
/// the packed edge and remember whether it was novel; make `s` the previous
/// state.  A self-loop inserts no edge.
pub open spec fn graph_record_step(m: GraphModel, s: u64) -> GraphModel {
    let id_int = if m.nodes.contains(s) {
        node_id_of(m.nodes, s)
    } else {
        m.nodes.len() as int
    };
    let id = id_int as u32;
    let nodes2 = if m.nodes.contains(s) {
        m.nodes
    } else {
        m.nodes.push(s)
    };
    let (edges2, fresh2) = match m.last {
        Some(l) => if l != id {
            let e = spec_pack_transition(l, id);
            if m.edges.contains(e) {
                (m.edges, m.fresh)
            } else {
                (m.edges.insert(e), true)
            }
        } else {
            (m.edges, m.fresh)
        },
        None => (m.edges, m.fresh),
    };
    GraphModel { nodes: nodes2, edges: edges2, last: Some(id), fresh: fresh2 }
}

/// Insert `e` into the strictly sorted sequence `edges`, keeping it sorted;
/// returns whether `e` was not yet present.
fn insert_sorted(edges: &mut Vec<u64>, e: u64) -> (novel: bool)
    requires
        sorted_strict(old(edges)@),
    ensures
        sorted_strict(final(edges)@),
        novel <==> !old(edges)@.to_set().contains(e),
        final(edges)@.to_set() == old(edges)@.to_set().insert(e),
        !novel ==> final(edges)@ == old(edges)@,
        novel ==> final(edges)@.len() == old(edges)@.len() + 1,
        forall|x: u64|
            final(edges)@.contains(x) ==> old(edges)@.contains(x) || x == e,
{
    let n = edges.len();
    let mut i: usize = 0;
    while i < n && edges[i] < e
        invariant
            i <= n == edges@.len(),
            edges@ == old(edges)@,
            forall|j: int| 0 <= j < i ==> edges@[j] < e,
        decreases n - i,
    {
        i = i + 1;
    }

    if i < n && edges[i] == e {
        proof {
            assert(old(edges)@.to_set().contains(e));
            assert(edges@.to_set() =~= old(edges)@.to_set().insert(e));
        }
        return false;
    }

    proof {
        assert(forall|j: int| i <= j < edges@.len() ==> e < edges@[j]) by {
            assert(forall|j: int|
                i < j < edges@.len() ==> edges@[i as int] < #[trigger] edges@[j]);
        }
        assert(!old(edges)@.to_set().contains(e)) by {
            if old(edges)@.contains(e) {
                let k = choose|k: int| 0 <= k < old(edges)@.len() && old(edges)@[k] == e;
                assert(old(edges)@[k] == e);
            }
        }
    }

    let ghost pre = edges@;
    edges.insert(i, e);

    proof {
        assert(forall|a: int|
            0 <= a < edges@.len() ==> #[trigger] edges@[a] == (if a < i {
                pre[a]
            } else if a == i {
                e
            } else {
                pre[a - 1]
            }));
        assert(sorted_strict(edges@));
        assert forall|x: u64| edges@.to_set().contains(x) implies pre.to_set().insert(
            e,
        ).contains(x) by {
            assert(edges@.contains(x));
            let a = choose|a: int| 0 <= a < edges@.len() && edges@[a] == x;
            if a < i {
                assert(pre[a] == x);
                assert(pre.contains(x));
            } else if a > i {
                assert(pre[a - 1] == x);
                assert(pre.contains(x));
            }
        }
        assert forall|x: u64| pre.to_set().insert(e).contains(x) implies edges@.to_set().contains(
            x,
        ) by {
            if x == e {
                assert(edges@[i as int] == x);
                assert(edges@.contains(x));
            } else {
                assert(pre.contains(x));
                let a = choose|a: int| 0 <= a < pre.len() && pre[a] == x;
                if a < i {
                    assert(edges@[a] == x);
                } else {
                    assert(edges@[a + 1] == x);
                }
                assert(edges@.contains(x));
            }
        }
        assert(edges@.to_set() =~= pre.to_set().insert(e));
    }
    true
}

/// The decimal digit `d` as a character.
pub open spec fn digit_char(d: int) -> char {
    if d == 0 {
        '0'
    } else if d == 1 {
        '1'
    } else if d == 2 {
        '2'
    } else if d == 3 {
        '3'
    } else if d == 4 {
        '4'
    } else if d == 5 {
        '5'
    } else if d == 6 {
        '6'
    } else if d == 7 {
        '7'
    } else if d == 8 {
        '8'
    } else {
        '9'
    }
}

/// The decimal rendering of `n`, most significant digit first.
pub open spec fn dec_digits(n: int) -> Seq<char>
    decreases n,
{
    if n < 10 {
        seq![digit_char(n)]
    } else {
        dec_digits(n / 10) + seq![digit_char(n % 10)]
    }
}

/// The decimal digit `d` as a one-character string.
fn digit_str(d: u32) -> (r: &'static str)
    requires
        d < 10,
    ensures
        r@ == seq![digit_char(d as int)],
{
    let r = if d == 0 {
        "0"
    } else if d == 1 {
        "1"
    } else if d == 2 {
        "2"
    } else if d == 3 {
        "3"
    } else if d == 4 {
        "4"
    } else if d == 5 {
        "5"
    } else if d == 6 {
        "6"
    } else if d == 7 {
        "7"
    } else if d == 8 {
        "8"
    } else {
        "9"
    };
    proof {
        reveal_strlit("0");
        reveal_strlit("1");
        reveal_strlit("2");
        reveal_strlit("3");
        reveal_strlit("4");
        reveal_strlit("5");
        reveal_strlit("6");
        reveal_strlit("7");
        reveal_strlit("8");
        reveal_strlit("9");
        assert(r@ =~= seq![digit_char(d as int)]);
    }
    r
}

/// Append the decimal rendering of `n`.
fn push_dec(out: &mut String, n: u32)
    ensures
        final(out)@ == old(out)@ + dec_digits(n as int),
    decreases n,
{
    if n < 10 {
        out.append(digit_str(n));
        proof {
            assert(out@ =~= old(out)@ + dec_digits(n as int));
        }
    } else {
        push_dec(out, n / 10);
        out.append(digit_str(n % 10));
        proof {
            assert(out@ =~= old(out)@ + dec_digits(n as int));
        }
    }
}

/// One DOT edge line: two spaces, the quoted source id, an arrow, the quoted
/// destination id, a semicolon and a newline.
pub open spec fn dot_line(e: u64) -> Seq<char> {
    "  \""@ + dec_digits(spec_unpack_from(e) as int) + "\" -> \""@ + dec_digits(
        spec_unpack_to(e) as int,
    ) + "\";\n"@
}

/// The edge lines of the DOT rendering, in the given order.
pub open spec fn dot_body(edges: Seq<u64>) -> Seq<char>
    decreases edges.len(),
{
    if edges.len() == 0 {
        Seq::empty()
    } else {
        dot_body(edges.drop_last()) + dot_line(edges.last())
    }
}

/// The DOT rendering of a graph whose edges are listed in the given order:
/// a `digraph` header, one line per edge, and a closing brace.
pub open spec fn spec_dot(edges: Seq<u64>) -> Seq<char> {
    "digraph IMPLEMENTED_STATE_MACHINE {\n"@ + dot_body(edges) + "}\n"@
}

/// Relies on the `write` macro and standard output: the text is written
/// as-is; errors are ignored.
#[verifier::external_body]
fn print_text(s: &str) {
    let _ = write!(std::io::stdout(), "{}", s);
}

/// The state graph itself: the node map (a state's id is its position in the
/// vector), the ordered edge set, and the per-execution transient state.
#[derive(Debug)]
pub struct StateGraph {
    nodes: Vec<u64>,
    edges: Vec<u64>,
    last_node: Option<u32>,
    new_transitions: bool,
}

impl View for StateGraph {
    type V = GraphModel;

    closed spec fn view(&self) -> GraphModel {
        GraphModel {
            nodes: self.nodes@,
            edges: self.edges@.to_set(),
            last: self.last_node,
            fresh: self.new_transitions,
        }
    }
}

impl StateGraph {
    /// The graph's internal invariant: states are stored once, ids fit in a
    /// `u32`, the edge vector is a strictly sorted set, and the transient
    /// last-state id and all edge endpoints are ids of stored states.
    pub closed spec fn wf(&self) -> bool {
        &&& self.nodes@.no_duplicates()
        &&& self.nodes@.len() <= u32::MAX
        &&& sorted_strict(self.edges@)
        &&& match self.last_node {
            Some(l) => (l as int) < self.nodes@.len(),
            None => true,
        }
        &&& forall|x: u64|
            #[trigger] self.edges@.contains(x) ==> (spec_unpack_from(x) as int)
                < self.nodes@.len() && (spec_unpack_to(x) as int) < self.nodes@.len()
    }

    /// Create an empty graph.
    pub fn new() -> (r: Self)
        ensures
            r.wf(),
            r@.nodes == Seq::<u64>::empty(),
            r@.edges == Set::<u64>::empty(),
            r@.last is None,
            r@.fresh == false,
    {
        let r = StateGraph {
            nodes: Vec::new(),
            edges: Vec::new(),
            last_node: None,
            new_transitions: false,
        };
        proof {
            assert(r.edges@.to_set() =~= Set::<u64>::empty());
        }
        r
    }

    /// Clear the transient per-execution state; nodes and edges are kept.
    pub fn reset(&mut self)
        requires
            old(self).wf(),
        ensures
            final(self).wf(),
            final(self)@.nodes == old(self)@.nodes,
            final(self)@.nodes.no_duplicates(),
            final(self)@.edges == old(self)@.edges,
            final(self)@.edges.finite(),
            final(self)@.last is None,
            final(self)@.fresh == false,
    {
        self.last_node = None;
        self.new_transitions = false;
    }

    /// Look up or insert `state`, returning its id.  A fresh state gets the
    /// next dense id: the number of states stored before it.
    pub fn add_node(&mut self, state: u64) -> (id: u32)
        requires
            old(self).wf(),
            old(self)@.nodes.len() < u32::MAX,
        ensures
            final(self).wf(),
            final(self)@.nodes.no_duplicates(),
            final(self)@.edges == old(self)@.edges,
            final(self)@.edges.finite(),
            final(self)@.last == old(self)@.last,
            final(self)@.fresh == old(self)@.fresh,
            old(self)@.nodes.contains(state) ==> {
                &&& final(self)@.nodes == old(self)@.nodes
                &&& (id as int) < old(self)@.nodes.len()
                &&& old(self)@.nodes[id as int] == state
                &&& id as int == node_id_of(old(self)@.nodes, state)
            },
            !old(self)@.nodes.contains(state) ==> {
                &&& final(self)@.nodes == old(self)@.nodes.push(state)
                &&& id == old(self)@.nodes.len()
            },
    {
        let n = self.nodes.len();
        let mut i: usize = 0;
        while i < n
            invariant
                old(self).wf(),
                old(self)@.nodes.len() < u32::MAX,
                i <= n == self.nodes@.len(),
                *self == *old(self),
                forall|j: int| 0 <= j < i ==> self.nodes@[j] != state,
            decreases n - i,
        {
            if self.nodes[i] == state {
                proof {
                    lemma_node_id_unique(old(self)@.nodes, state, i as int);
                }
                return i as u32;
            }
            i = i + 1;
        }

        self.nodes.push(state);
        proof {
            assert(self.nodes@.no_duplicates());
        }
        n as u32
    }

    /// Record that the target moved to the state with id `id`.  When a
    /// previous state exists and differs, the packed edge is inserted and
    /// `fresh` is raised iff it was novel; a self-loop inserts no edge.
    pub fn add_edge(&mut self, id: u32)
        requires
            old(self).wf(),
            (id as int) < old(self)@.nodes.len(),
        ensures
            final(self).wf(),
            final(self)@.nodes == old(self)@.nodes,
            final(self)@.nodes.no_duplicates(),
            final(self)@.edges.finite(),
            final(self)@.last == Some(id),
            match old(self)@.last {
                Some(l) => if l != id {
                    let e = spec_pack_transition(l, id);
                    &&& final(self)@.edges == old(self)@.edges.insert(e)
                    &&& final(self)@.fresh == (old(self)@.fresh || !old(self)@.edges.contains(e))
                } else {
                    &&& final(self)@.edges == old(self)@.edges
                    &&& final(self)@.fresh == old(self)@.fresh
                },
                None => {
                    &&& final(self)@.edges == old(self)@.edges
                    &&& final(self)@.fresh == old(self)@.fresh
                },
            },
    {
        match self.last_node {
            Some(old_id) => {
                if old_id != id {
                    let e = pack_transition(old_id, id);
                    proof {
                        lemma_pack_unpack(old_id, id);
                    }
                    let novel = insert_sorted(&mut self.edges, e);
                    self.new_transitions = self.new_transitions || novel;
                    proof {
                        if !novel {
                            assert(self.edges@.to_set() =~= self.edges@.to_set().insert(e));
                        }
                    }
                }
            },
            None => {},
        }
        self.last_node = Some(id);
    }

    /// The number of nodes and the number of edges.
    pub fn counts(&self) -> (r: (usize, usize))
        requires
            self.wf(),
        ensures
            r.0 == self@.nodes.len(),
            r.1 == self@.edges.len(),
    {
        proof {
            assert(self.edges@.no_duplicates());
            self.edges@.unique_seq_to_set();
        }
        (self.nodes.len(), self.edges.len())
    }

    /// Whether the current execution inserted a previously unseen edge.
    pub fn has_new_transitions(&self) -> (r: bool)
        ensures
            r == self@.fresh,
    {
        self.new_transitions
    }

    /// Render the graph in DOT: one line per edge, in ascending packed
    /// order, which is ascending `(from, to)` order.
    pub fn render_dot(&self) -> (r: String)
        requires
            self.wf(),
        ensures
            exists|es: Seq<u64>|
                #[trigger] sorted_strict(es) && es.to_set() == self@.edges && r@ == spec_dot(es),
    {
        let mut out = String::new();
        out.append("digraph IMPLEMENTED_STATE_MACHINE {\n");
        let ghost header = "digraph IMPLEMENTED_STATE_MACHINE {\n"@;
        let mut i: usize = 0;
        while i < self.edges.len()
            invariant
                i <= self.edges@.len(),
                self.wf(),
                out@ == header + dot_body(self.edges@.subrange(0, i as int)),
                header == "digraph IMPLEMENTED_STATE_MACHINE {\n"@,
            decreases self.edges@.len() - i,
        {
            let e = self.edges[i];
            let (f, t) = unpack_transition(e);
            out.append("  \"");
            push_dec(&mut out, f);
            out.append("\" -> \"");
            push_dec(&mut out, t);
            out.append("\";\n");
            proof {
                assert(self.edges@.subrange(0, i + 1).drop_last() =~= self.edges@.subrange(
                    0,
                    i as int,
                ));
                assert(self.edges@.subrange(0, i + 1).last() == self.edges@[i as int]);
                assert(out@ =~= header + dot_body(self.edges@.subrange(0, i + 1)));
            }
            i = i + 1;
        }
        out.append("}\n");
        proof {
            assert(self.edges@.subrange(0, self.edges@.len() as int) =~= self.edges@);
            assert(out@ =~= spec_dot(self.edges@));
            assert(sorted_strict(self.edges@) && self.edges@.to_set() == self@.edges && out@
                == spec_dot(self.edges@));
        }
        out
    }

    /// Print the DOT rendering to standard output.
    pub fn print_dot(&self)
        requires
            self.wf(),
    {
        let text = self.render_dot();
        print_text(text.as_str());
    }
}

/// An observer that builds a state-graph.
///
/// The executor drives the target, derives a `u64` state from each response,
/// and calls [`record`](StateObserver::record) once per meaningful step.
/// Between executions the harness calls [`pre_exec`](StateObserver::pre_exec),
/// which clears the transient state but keeps the accumulated graph.
#[derive(Debug)]
pub struct StateObserver {
    name: String,
    graph: StateGraph,
}

impl View for StateObserver {
    type V = GraphModel;

    closed spec fn view(&self) -> GraphModel {
        self.graph@
    }
}

impl StateObserver {
    /// The graph's internal invariant; established by `new` and kept by every
    /// method.
    pub closed spec fn wf(&self) -> bool {
        self.graph.wf()
    }

    /// The observer's name, under which the feedback looks it up.
    pub closed spec fn spec_name(&self) -> Seq<char> {
        self.name@
    }

    /// Create a new StateObserver with a given name.
    pub fn new(name: &str) -> (r: Self)
        ensures
            r.wf(),
            r.spec_name() == name@,
            r@.nodes == Seq::<u64>::empty(),
            r@.nodes.no_duplicates(),
            r@.edges == Set::<u64>::empty(),
            r@.edges.finite(),
            r@.last is None,
            r@.fresh == false,
    {
        StateObserver { name: name.to_owned(), graph: StateGraph::new() }
    }

    /// The observer's name.
    pub fn name(&self) -> (r: &str)
        ensures
            r@ == self.spec_name(),
    {
        self.name.as_str()
    }

    /// Tell the observer that the target has entered state `state`: exactly
    /// one [`graph_record_step`] on the abstract graph.
    pub fn record(&mut self, state: u64)
        requires
            old(self).wf(),
            old(self)@.nodes.len() < u32::MAX,
        ensures
            final(self).wf(),
            final(self)@ == graph_record_step(old(self)@, state),
            final(self)@.nodes.no_duplicates(),
            final(self)@.edges.finite(),
            final(self).spec_name() == old(self).spec_name(),
    {
        let node = self.graph.add_node(state);
        proof {
            if old(self)@.nodes.contains(state) {
                lemma_node_id_unique(old(self)@.nodes, state, node as int);
            }
        }
        self.graph.add_edge(node);
        proof {
            assert(self@ =~= graph_record_step(old(self)@, state));
        }
    }

    /// Clear the transient per-execution state (the previous-state id and the
    /// novelty flag); nodes and edges are preserved.
    pub fn pre_exec(&mut self)
        requires
            old(self).wf(),
        ensures
            final(self).wf(),
            final(self)@.nodes == old(self)@.nodes,
            final(self)@.nodes.no_duplicates(),
            final(self)@.edges == old(self)@.edges,
            final(self)@.edges.finite(),
            final(self)@.last is None,
            final(self)@.fresh == false,
            final(self).spec_name() == old(self).spec_name(),
    {
        self.graph.reset();
    }

    /// Called after an execution; the observer does nothing here.
    pub fn post_exec(&mut self)
        ensures
            *final(self) == *old(self),
    {
    }

    /// Returns whether any new edges were created in the state-graph during
    /// the current execution.
    pub fn had_new_transitions(&self) -> (r: bool)
        ensures
            r == self@.fresh,
    {
        self.graph.has_new_transitions()
    }

    /// Returns the number of vertices and edges in the state-graph.
    pub fn info(&self) -> (r: (usize, usize))
        requires
            self.wf(),
        ensures
            r.0 == self@.nodes.len(),
            r.1 == self@.edges.len(),
    {
        self.graph.counts()
    }

    /// Render the state machine seen so far in DOT: one line per edge, in
    /// ascending `(from, to)` order.
    pub fn render_statemachine(&self) -> (r: String)
        requires
            self.wf(),
        ensures
            exists|es: Seq<u64>|
                #[trigger] sorted_strict(es) && es.to_set() == self@.edges && r@ == spec_dot(es),
    {
        self.graph.render_dot()
    }

    /// Print a DOT representation of the state machine to standard output.
    pub fn print_statemachine(&self)
        requires
            self.wf(),
    {
        self.graph.print_dot();
    }
}

/// The abstract graph of a freshly created observer.
pub open spec fn empty_model() -> GraphModel {
    GraphModel { nodes: Seq::empty(), edges: Set::empty(), last: None, fresh: false }
}

/// Run a sequence of `record` calls over the abstract graph.
pub open spec fn run_records(m: GraphModel, trace: Seq<u64>) -> GraphModel
    decreases trace.len(),
{
    if trace.len() == 0 {
        m
    } else {
        run_records(graph_record_step(m, trace[0]), trace.drop_first())
    }
}

/// The set of packed edges contributed by recording `trace` when the
/// previous-state id is `prev`, with every id read off the node list
/// `nodes`: the distinct ordered non-self pairs observed consecutively.
pub open spec fn trace_edges(nodes: Seq<u64>, prev: Option<u32>, trace: Seq<u64>) -> Set<u64>
    decreases trace.len(),
{
    if trace.len() == 0 {
        Set::empty()
    } else {
        let id = node_id_of(nodes, trace[0]) as u32;
        let rest = trace_edges(nodes, Some(id), trace.drop_first());
        match prev {
            Some(l) => if l != id {
                rest.insert(spec_pack_transition(l, id))
            } else {
                rest
            },
            None => rest,
        }
    }
}

/// Recording a state whose id equals the previous-state id leaves the edge
/// set and the novelty flag unchanged: self-loops are not recorded.
pub proof fn lemma_self_loop_adds_no_edge(m: GraphModel, s: u64)
    requires
        m.nodes.no_duplicates(),
        m.nodes.contains(s),
        m.last == Some(node_id_of(m.nodes, s) as u32),
    ensures
        graph_record_step(m, s).edges == m.edges,
        graph_record_step(m, s).fresh == m.fresh,
        graph_record_step(m, s).nodes == m.nodes,
{
}

/// The edges contributed by a trace form a finite set.
pub proof fn lemma_trace_edges_finite(nodes: Seq<u64>, prev: Option<u32>, trace: Seq<u64>)
    ensures
        trace_edges(nodes, prev, trace).finite(),
    decreases trace.len(),
{
    if trace.len() > 0 {
        let id = node_id_of(nodes, trace[0]) as u32;
        lemma_trace_edges_finite(nodes, Some(id), trace.drop_first());
    }
}

/// Running `record` calls preserves finiteness of the edge set.
pub proof fn lemma_run_records_finite(m: GraphModel, trace: Seq<u64>)
    requires
        m.edges.finite(),
    ensures
        run_records(m, trace).edges.finite(),
    decreases trace.len(),
{
    if trace.len() > 0 {
        lemma_run_records_finite(graph_record_step(m, trace[0]), trace.drop_first());
    }
}

/// The node list and the edge set grow monotonically across `record` calls.
pub proof fn lemma_graph_monotone(m: GraphModel, trace: Seq<u64>)
    ensures
        m.edges.subset_of(run_records(m, trace).edges),
        m.nodes.is_prefix_of(run_records(m, trace).nodes),
    decreases trace.len(),
{
    if trace.len() == 0 {
        assert(m.nodes =~= run_records(m, trace).nodes.subrange(0, m.nodes.len() as int));
    } else {
        let m1 = graph_record_step(m, trace[0]);
        lemma_graph_monotone(m1, trace.drop_first());
        assert(m.edges.subset_of(m1.edges));
        assert(m.nodes.is_prefix_of(m1.nodes)) by {
            assert(m.nodes =~= m1.nodes.subrange(0, m.nodes.len() as int));
        }
        let fin = run_records(m1, trace.drop_first());
        assert(m.nodes =~= fin.nodes.subrange(0, m.nodes.len() as int)) by {
            assert(m1.nodes =~= fin.nodes.subrange(0, m1.nodes.len() as int));
        }
    }
}

/// The novelty flag is raised during a run iff the run inserted an edge that
/// was not in the graph when the run started (or the flag was already set).
/// With `m.fresh == false` — the state after `pre_exec` — the flag at the end
/// says exactly whether some recorded pair was new at the moment it was
/// recorded.
pub proof fn lemma_fresh_iff_edges_grew(m: GraphModel, trace: Seq<u64>)
    ensures
        run_records(m, trace).fresh == (m.fresh || run_records(m, trace).edges != m.edges),
    decreases trace.len(),
{
    if trace.len() > 0 {
        let m1 = graph_record_step(m, trace[0]);
        let fin = run_records(m1, trace.drop_first());
        lemma_fresh_iff_edges_grew(m1, trace.drop_first());
        lemma_graph_monotone(m1, trace.drop_first());
        if m1.edges == m.edges {
            assert(m1.fresh == m.fresh);
        } else {
            let id_int = if m.nodes.contains(trace[0]) {
                node_id_of(m.nodes, trace[0])
            } else {
                m.nodes.len() as int
            };
            let id = id_int as u32;
            let l = m.last->Some_0;
            let e = spec_pack_transition(l, id);
            assert(m1.fresh);
            assert(!m.edges.contains(e));
            assert(fin.edges.contains(e));
            assert(fin.edges != m.edges);
        }
    }
}

/// After any sequence of `record` calls the recorded states are exactly the
/// old states plus the trace's states, still stored once each, and the edge
/// set is exactly the old edges plus the distinct ordered non-self pairs
/// observed consecutively in the trace.
pub proof fn lemma_graph_contents(m: GraphModel, trace: Seq<u64>)
    requires
        m.nodes.no_duplicates(),
    ensures
        run_records(m, trace).nodes.to_set() == m.nodes.to_set().union(trace.to_set()),
        run_records(m, trace).nodes.no_duplicates(),
        run_records(m, trace).edges == m.edges.union(
            trace_edges(run_records(m, trace).nodes, m.last, trace),
        ),
    decreases trace.len(),
{
    let fin = run_records(m, trace);
    if trace.len() == 0 {
        assert(fin.nodes.to_set() =~= m.nodes.to_set().union(trace.to_set())) by {
            assert(forall|x: u64| !(#[trigger] trace.contains(x)));
        }
        assert(fin.edges =~= m.edges.union(trace_edges(fin.nodes, m.last, trace)));
    } else {
        let s0 = trace[0];
        let rest = trace.drop_first();
        let m1 = graph_record_step(m, s0);
        let id_int = if m.nodes.contains(s0) {
            node_id_of(m.nodes, s0)
        } else {
            m.nodes.len() as int
        };
        let id = id_int as u32;

        assert(m1.nodes.no_duplicates());
        lemma_graph_contents(m1, rest);
        lemma_graph_monotone(m1, rest);

        // The id assigned at this step is the id in the final node list.
        assert(0 <= id_int < m1.nodes.len() && m1.nodes[id_int] == s0) by {
            if m.nodes.contains(s0) {
                let w = choose|w: int| 0 <= w < m.nodes.len() && m.nodes[w] == s0;
                lemma_node_id_unique(m.nodes, s0, w);
            }
        }
        assert(fin.nodes[id_int] == s0) by {
            assert(m1.nodes =~= fin.nodes.subrange(0, m1.nodes.len() as int));
        }
        lemma_node_id_unique(fin.nodes, s0, id_int);

        // Nodes: one step adds s0 (if new), the rest adds rest's states.
        assert(m1.nodes.to_set() =~= m.nodes.to_set().insert(s0)) by {
            if m.nodes.contains(s0) {
                assert(m.nodes.to_set().contains(s0));
            } else {
                assert forall|x: u64| m1.nodes.contains(x) implies (m.nodes.contains(x) || x
                    == s0) by {
                    let a = choose|a: int| 0 <= a < m1.nodes.len() && m1.nodes[a] == x;
                    if a < m.nodes.len() {
                        assert(m.nodes[a] == x);
                    }
                }
                assert forall|x: u64| m.nodes.contains(x) implies m1.nodes.contains(x) by {
                    let a = choose|a: int| 0 <= a < m.nodes.len() && m.nodes[a] == x;
                    assert(m1.nodes[a] == x);
                }
                assert(m1.nodes.contains(s0)) by {
                    assert(m1.nodes[m.nodes.len() as int] == s0);
                }
            }
        }
        assert(trace.to_set() =~= rest.to_set().insert(s0)) by {
            assert forall|x: u64| trace.contains(x) implies (rest.contains(x) || x == s0) by {
                let a = choose|a: int| 0 <= a < trace.len() && trace[a] == x;
                if a > 0 {
                    assert(rest[a - 1] == x);
                }
            }
            assert forall|x: u64| rest.contains(x) implies trace.contains(x) by {
                let a = choose|a: int| 0 <= a < rest.len() && rest[a] == x;
                assert(trace[a + 1] == x);
            }
            assert(trace.contains(s0));
        }
        assert(fin.nodes.to_set() =~= m.nodes.to_set().union(trace.to_set()));

        // Edges: the step's contribution plus the rest's contribution.
        let step_edges = trace_edges(fin.nodes, m.last, trace);
        let rest_edges = trace_edges(fin.nodes, Some(id), rest);
        assert(fin.edges == m1.edges.union(rest_edges));
        match m.last {
            Some(l) => {
                if l != id {
                    let e = spec_pack_transition(l, id);
                    assert(step_edges == rest_edges.insert(e));
                    if m.edges.contains(e) {
                        assert(m1.edges == m.edges);
                        assert(fin.edges =~= m.edges.union(step_edges));
                    } else {
                        assert(m1.edges == m.edges.insert(e));
                        assert(fin.edges =~= m.edges.union(step_edges));
                    }
                } else {
                    assert(fin.edges =~= m.edges.union(step_edges));
                }
            },
            None => {
                assert(fin.edges =~= m.edges.union(step_edges));
            },
        }
    }
}

/// For a graph that starts empty, the number of stored states equals the
/// number of distinct recorded states, and the edge set is exactly the set
/// of distinct ordered non-self pairs observed consecutively.
pub proof fn lemma_counts_from_empty(trace: Seq<u64>)
    ensures
        run_records(empty_model(), trace).nodes.to_set() == trace.to_set(),
        run_records(empty_model(), trace).nodes.len() == trace.to_set().len(),
        run_records(empty_model(), trace).edges == trace_edges(
            run_records(empty_model(), trace).nodes,
            None,
            trace,
        ),
{
    let fin = run_records(empty_model(), trace);
    lemma_graph_contents(empty_model(), trace);
    assert(fin.nodes.to_set() =~= trace.to_set());
    assert(fin.edges =~= trace_edges(fin.nodes, None, trace));
    fin.nodes.unique_seq_to_set();
}


/// The transient reset made before each execution: the previous-state id
/// and the novelty flag are cleared; nodes and edges are kept.
pub open spec fn reset_model(m: GraphModel) -> GraphModel {
    GraphModel { nodes: m.nodes, edges: m.edges, last: None, fresh: false }
}

/// Run a whole history of executions over the abstract graph: before each
/// execution the observer is reset, then the execution's states are
/// recorded in order.
pub open spec fn run_executions(m: GraphModel, execs: Seq<Seq<u64>>) -> GraphModel
    decreases execs.len(),
{
    if execs.len() == 0 {
        m
    } else {
        run_executions(run_records(reset_model(m), execs[0]), execs.drop_first())
    }
}

/// Every state recorded by any execution of the history.
pub open spec fn campaign_states(execs: Seq<Seq<u64>>) -> Set<u64>
    decreases execs.len(),
{
    if execs.len() == 0 {
        Set::empty()
    } else {
        execs[0].to_set().union(campaign_states(execs.drop_first()))
    }
}

/// Every packed edge observed by any execution of the history: the distinct
/// ordered non-self pairs recorded consecutively within one execution, with
/// ids read off the node list `nodes`.
pub open spec fn campaign_edges(nodes: Seq<u64>, execs: Seq<Seq<u64>>) -> Set<u64>
    decreases execs.len(),
{
    if execs.len() == 0 {
        Set::empty()
    } else {
        trace_edges(nodes, None, execs[0]).union(campaign_edges(nodes, execs.drop_first()))
    }
}

/// A trace whose states are all stored in a prefix of the node list
/// contributes the same edges whether ids are read off the prefix or off
/// the whole list: ids are stable once assigned.
pub proof fn lemma_trace_edges_stable(ns: Seq<u64>, ns2: Seq<u64>, prev: Option<u32>, trace: Seq<u64>)
    requires
        ns.is_prefix_of(ns2),
        ns2.no_duplicates(),
        forall|i: int| 0 <= i < trace.len() ==> ns.contains(#[trigger] trace[i]),
    ensures
        trace_edges(ns2, prev, trace) == trace_edges(ns, prev, trace),
    decreases trace.len(),
{
    if trace.len() > 0 {
        let s0 = trace[0];
        assert(ns.no_duplicates()) by {
            assert(forall|i: int| 0 <= i < ns.len() ==> ns[i] == ns2.subrange(0, ns.len() as int)[i]);
        }
        let k = choose|k: int| 0 <= k < ns.len() && ns[k] == s0;
        lemma_node_id_unique(ns, s0, k);
        assert(ns2[k] == ns.subrange(0, ns.len() as int)[k]);
        lemma_node_id_unique(ns2, s0, k);
        assert(forall|i: int|
            0 <= i < trace.drop_first().len() ==> ns.contains(#[trigger] trace.drop_first()[i]))
            by {
            assert(forall|i: int|
                0 <= i < trace.drop_first().len() ==> trace.drop_first()[i] == trace[i + 1]);
        }
        lemma_trace_edges_stable(ns, ns2, Some(k as u32), trace.drop_first());
    }
}

/// P4 over a whole history: starting from `m`, the stored states are the
/// old ones plus every state any execution recorded, stored once each, and
/// the edge set is the old one plus every distinct ordered non-self pair
/// observed consecutively within some execution.
pub proof fn lemma_history_contents(m: GraphModel, execs: Seq<Seq<u64>>)
    requires
        m.nodes.no_duplicates(),
    ensures
        run_executions(m, execs).nodes.to_set() == m.nodes.to_set().union(campaign_states(execs)),
        run_executions(m, execs).nodes.no_duplicates(),
        m.nodes.is_prefix_of(run_executions(m, execs).nodes),
        run_executions(m, execs).edges == m.edges.union(
            campaign_edges(run_executions(m, execs).nodes, execs),
        ),
    decreases execs.len(),
{
    let fin = run_executions(m, execs);
    if execs.len() == 0 {
        assert(fin.nodes.to_set() =~= m.nodes.to_set().union(campaign_states(execs)));
        assert(fin.edges =~= m.edges.union(campaign_edges(fin.nodes, execs)));
        assert(m.nodes =~= fin.nodes.subrange(0, m.nodes.len() as int));
    } else {
        let e0 = execs[0];
        let rest = execs.drop_first();
        let m1 = run_records(reset_model(m), e0);

        lemma_graph_contents(reset_model(m), e0);
        lemma_graph_monotone(reset_model(m), e0);
        lemma_history_contents(m1, rest);

        // The whole old node list survives as a prefix.
        assert(m.nodes.is_prefix_of(fin.nodes)) by {
            assert(m.nodes =~= m1.nodes.subrange(0, m.nodes.len() as int));
            assert(m1.nodes =~= fin.nodes.subrange(0, m1.nodes.len() as int));
            assert(m.nodes =~= fin.nodes.subrange(0, m.nodes.len() as int));
        }

        // States: the first execution's states plus the rest's.
        assert(fin.nodes.to_set() =~= m.nodes.to_set().union(campaign_states(execs)));

        // Edges: the first execution's edges are stable under the later
        // growth of the node list.
        assert(forall|i: int| 0 <= i < e0.len() ==> m1.nodes.contains(#[trigger] e0[i])) by {
            assert(forall|i: int|
                0 <= i < e0.len() ==> m1.nodes.to_set().contains(#[trigger] e0[i]));
        }
        assert(m1.nodes.is_prefix_of(fin.nodes));
        lemma_trace_edges_stable(m1.nodes, fin.nodes, None, e0);
        assert(fin.edges =~= m.edges.union(campaign_edges(fin.nodes, execs)));
    }
}

/// P4 for a fresh observer: after any history of executions the number of
/// stored states is the number of distinct states ever recorded, and the
/// edge set is exactly the distinct ordered non-self pairs observed
/// consecutively within some execution.
pub proof fn lemma_campaign_counts(execs: Seq<Seq<u64>>)
    ensures
        run_executions(empty_model(), execs).nodes.to_set() == campaign_states(execs),
        run_executions(empty_model(), execs).nodes.len() == campaign_states(execs).len(),
        run_executions(empty_model(), execs).edges == campaign_edges(
            run_executions(empty_model(), execs).nodes,
            execs,
        ),
{
    let fin = run_executions(empty_model(), execs);
    lemma_history_contents(empty_model(), execs);
    assert(fin.nodes.to_set() =~= campaign_states(execs));
    assert(fin.edges =~= campaign_edges(fin.nodes, execs));
    fin.nodes.unique_seq_to_set();
}

} // verus!