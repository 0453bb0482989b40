use vstd::prelude::*;
use std::collections::HashMap;
use crate::bjk_graph::{has_port, BjkConnection, BjkGraph, BjkNode, BjkPort};
use crate::graph_error::GraphError;
use crate::ui_graph::{UiGraph, UiInput, UiOutput};

verus! {

broadcast use vstd::std_specs::hash::group_hash_axioms;

/// The two directions between editor node identities and compiler node
/// identities, valid for one translation.
pub struct NodeMapping {
    pub to_bjk: HashMap<u64, usize>,
    pub to_ui: Vec<u64>,
}

/// The compiler node made for editor node `a`.
pub open spec fn bjk_node_of<V>(g: &UiGraph<V>, a: int) -> BjkNode {
    BjkNode { op_name: g.nodes@[a].op_name, return_type: g.nodes@[a].return_type }
}

/// The compiler port registered for input socket `b` of editor node `a`.
pub open spec fn input_port<V>(g: &UiGraph<V>, a: int, b: int) -> BjkPort {
    BjkPort { node: a as usize, name: g.input_at(a, b).name, typ: g.input_at(a, b).typ }
}

/// The compiler port registered for output socket `b` of editor node `a`.
pub open spec fn output_port<V>(g: &UiGraph<V>, a: int, b: int) -> BjkPort {
    BjkPort { node: a as usize, name: g.output_at(a, b).name, typ: g.output_at(a, b).typ }
}

/// The compiler connection made for the editor connection `c`.
pub open spec fn connection_of<V>(g: &UiGraph<V>, c: (u64, u64)) -> BjkConnection {
    let (ia, ib) = g.input_pos(c.0);
    let (oa, ob) = g.output_pos(c.1);
    BjkConnection {
        src_node: oa as usize,
        src_param: g.output_at(oa, ob).name,
        dst_node: ia as usize,
        dst_param: g.input_at(ia, ib).name,
    }
}

/// Why the editor connection `c` cannot be registered, if it cannot.
pub open spec fn connection_error<V>(g: &UiGraph<V>, c: (u64, u64)) -> Option<GraphError> {
    if !g.has_input_id(c.0) || !g.has_output_id(c.1) {
        Some(GraphError::UnknownPort)
    } else if g.output_at(g.output_pos(c.1).0, g.output_pos(c.1).1).typ
        != g.input_at(g.input_pos(c.0).0, g.input_pos(c.0).1).typ {
        Some(GraphError::TypeMismatch)
    } else {
        None
    }
}

/// The error of the first of the first `n` connections that cannot be registered.
pub open spec fn first_connection_error<V>(g: &UiGraph<V>, n: int) -> Option<GraphError>
    decreases n,
{
    if n <= 0 {
        None
    } else {
        match first_connection_error(g, n - 1) {
            Some(e) => Some(e),
            None => connection_error(g, g.connections@[n - 1]),
        }
    }
}

/// What translating `g` fails with, if it fails.
pub open spec fn translation_error<V>(g: &UiGraph<V>) -> Option<GraphError> {
    if g.has_duplicate_port() {
        Some(GraphError::DuplicatePort)
    } else {
        first_connection_error(g, g.connections@.len() as int)
    }
}

/// Socket (a, b) comes before socket (i, k) in registration order.
pub open spec fn seen(a: int, b: int, i: int, k: int) -> bool {
    a < i || (a == i && b < k)
}

impl NodeMapping {
    /// Both directions agree with the node order of `g`: editor node at
    /// position `a` has compiler identity `a`.
    pub open spec fn maps<V>(&self, g: &UiGraph<V>) -> bool {
        &&& self.to_ui@.len() == g.nodes@.len()
        &&& forall|a: int| 0 <= a < g.nodes@.len() ==> {
            &&& #[trigger] self.to_ui@[a] == g.nodes@[a].id
            &&& self.to_bjk@.contains_key(g.nodes@[a].id)
            &&& self.to_bjk@[g.nodes@[a].id] == a
        }
        &&& forall|u: u64| #[trigger] self.to_bjk@.contains_key(u) ==> g.has_node_id(u)
    }

    /// The compiler identity of editor node `u`.
    pub fn bjk_id(&self, u: u64) -> (r: Option<usize>)
        ensures
            r == (if self.to_bjk@.contains_key(u) { Some(self.to_bjk@[u]) } else { None::<usize> }),
    {
        match self.to_bjk.get(&u) {
            Some(b) => Some(*b),
            None => None,
        }
    }

    /// The editor identity of compiler node `b`.
    pub fn ui_id(&self, b: usize) -> (r: Option<u64>)
        ensures
            r == (if b < self.to_ui@.len() { Some(self.to_ui@[b as int]) } else { None::<u64> }),
    {
        if b < self.to_ui.len() {
            Some(self.to_ui[b])
        } else {
            None
        }
    }
}

/// `port` was made for some input socket of `g`.
pub open spec fn is_input_port<V>(g: &UiGraph<V>, port: BjkPort) -> bool {
    exists|a: int, b: int| #[trigger] g.has_input_at(a, b) && port == input_port(g, a, b)
}

/// `port` was made for some output socket of `g`.
pub open spec fn is_output_port<V>(g: &UiGraph<V>, port: BjkPort) -> bool {
    exists|a: int, b: int| #[trigger] g.has_output_at(a, b) && port == output_port(g, a, b)
}

/// A translation of `g` into `bjk` and `m`: one compiler node per editor node,
/// in the same order, one port per socket, one connection per connection.
pub open spec fn translates<V>(g: &UiGraph<V>, bjk: &BjkGraph, m: &NodeMapping) -> bool {
    &&& bjk.wf()
    &&& m.maps(g)
    &&& bjk.nodes@.len() == g.nodes@.len()
    &&& forall|a: int| 0 <= a < g.nodes@.len() ==> #[trigger] bjk.nodes@[a] == bjk_node_of(g, a)
    &&& forall|a: int, b: int| #[trigger] g.has_input_at(a, b)
        ==> exists|p: int| 0 <= p < bjk.inputs@.len() && #[trigger] bjk.inputs@[p] == input_port(g, a, b)
    &&& forall|p: int| 0 <= p < bjk.inputs@.len() ==> #[trigger] is_input_port(g, bjk.inputs@[p])
    &&& forall|a: int, b: int| #[trigger] g.has_output_at(a, b)
        ==> exists|p: int| 0 <= p < bjk.outputs@.len() && #[trigger] bjk.outputs@[p] == output_port(g, a, b)
    &&& forall|p: int| 0 <= p < bjk.outputs@.len() ==> #[trigger] is_output_port(g, bjk.outputs@[p])
    &&& bjk.connections@.len() == g.connections@.len()
    &&& forall|j: int| 0 <= j < g.connections@.len()
        ==> #[trigger] bjk.connections@[j] == connection_of(g, g.connections@[j])
}

/// Nodes before position `i` are registered in `nodes`, `to_bjk` and `to_ui`.
pub open spec fn nodes_registered<V>(g: &UiGraph<V>, nodes: Seq<BjkNode>, to_bjk: Map<u64, usize>, to_ui: Seq<u64>, i: int) -> bool {
    &&& nodes.len() == i
    &&& to_ui.len() == i
    &&& forall|a: int| 0 <= a < i ==> {
        &&& #[trigger] nodes[a] == bjk_node_of(g, a)
        &&& to_ui[a] == g.nodes@[a].id
        &&& to_bjk.contains_key(g.nodes@[a].id)
        &&& to_bjk[g.nodes@[a].id] == a
    }
    &&& forall|u: u64| #[trigger] to_bjk.contains_key(u)
        ==> exists|a: int| 0 <= a < i && #[trigger] g.nodes@[a].id == u
}

/// `port` was made for an input socket before (i, k).
pub open spec fn input_port_seen<V>(g: &UiGraph<V>, port: BjkPort, i: int, k: int) -> bool {
    exists|a: int, b: int| #[trigger] g.has_input_at(a, b) && seen(a, b, i, k) && port == input_port(g, a, b)
}

/// `port` was made for an output socket before (i, k).
pub open spec fn output_port_seen<V>(g: &UiGraph<V>, port: BjkPort, i: int, k: int) -> bool {
    exists|a: int, b: int| #[trigger] g.has_output_at(a, b) && seen(a, b, i, k) && port == output_port(g, a, b)
}

/// Input sockets before (i, k) are registered in `ports`, and `index` gives
/// the position of each of their ports; no two of them on one node share a name.
pub open spec fn inputs_registered<V>(g: &UiGraph<V>, ports: Seq<BjkPort>, index: Map<u64, usize>, i: int, k: int) -> bool {
    &&& forall|a: int, b: int| #[trigger] g.has_input_at(a, b) && seen(a, b, i, k) ==> {
        &&& index.contains_key(g.input_at(a, b).id)
        &&& index[g.input_at(a, b).id] < ports.len()
        &&& ports[index[g.input_at(a, b).id] as int] == input_port(g, a, b)
    }
    &&& forall|p: int| 0 <= p < ports.len() ==> #[trigger] input_port_seen(g, ports[p], i, k)
    &&& forall|id: u64| #[trigger] index.contains_key(id) ==> exists|a: int, b: int|
        #[trigger] g.has_input_at(a, b) && seen(a, b, i, k) && g.input_at(a, b).id == id
    &&& forall|a: int, x: int, y: int|
        #[trigger] g.has_input_at(a, x) && #[trigger] g.has_input_at(a, y) && x != y
            && seen(a, x, i, k) && seen(a, y, i, k)
            ==> g.input_at(a, x).name@ != g.input_at(a, y).name@
}

/// Output sockets before (i, k) are registered in `ports`, and `index` gives
/// the position of each of their ports; no two of them on one node share a name.
pub open spec fn outputs_registered<V>(g: &UiGraph<V>, ports: Seq<BjkPort>, index: Map<u64, usize>, i: int, k: int) -> bool {
    &&& forall|a: int, b: int| #[trigger] g.has_output_at(a, b) && seen(a, b, i, k) ==> {
        &&& index.contains_key(g.output_at(a, b).id)
        &&& index[g.output_at(a, b).id] < ports.len()
        &&& ports[index[g.output_at(a, b).id] as int] == output_port(g, a, b)
    }
    &&& forall|p: int| 0 <= p < ports.len() ==> #[trigger] output_port_seen(g, ports[p], i, k)
    &&& forall|id: u64| #[trigger] index.contains_key(id) ==> exists|a: int, b: int|
        #[trigger] g.has_output_at(a, b) && seen(a, b, i, k) && g.output_at(a, b).id == id
    &&& forall|a: int, x: int, y: int|
        #[trigger] g.has_output_at(a, x) && #[trigger] g.has_output_at(a, y) && x != y
            && seen(a, x, i, k) && seen(a, y, i, k)
            ==> g.output_at(a, x).name@ != g.output_at(a, y).name@
}

/// Under unique socket identities, a socket is found where it stands.
pub proof fn lemma_input_pos<V>(g: &UiGraph<V>, a: int, b: int)
    requires
        g.wf(),
        g.has_input_at(a, b),
    ensures
        g.has_input_id(g.input_at(a, b).id),
        g.input_pos(g.input_at(a, b).id) == (a, b),
{
    let id = g.input_at(a, b).id;
    assert(g.has_input_at((a, b).0, (a, b).1));
    let p = g.input_pos(id);
    assert(g.has_input_at(p.0, p.1));
}

/// Under unique socket identities, a socket is found where it stands.
pub proof fn lemma_output_pos<V>(g: &UiGraph<V>, a: int, b: int)
    requires
        g.wf(),
        g.has_output_at(a, b),
    ensures
        g.has_output_id(g.output_at(a, b).id),
        g.output_pos(g.output_at(a, b).id) == (a, b),
{
    let id = g.output_at(a, b).id;
    assert(g.has_output_at((a, b).0, (a, b).1));
    let p = g.output_pos(id);
    assert(g.has_output_at(p.0, p.1));
}

/// Once a connection has failed, the first failure stays the same.
pub proof fn lemma_first_error_persists<V>(g: &UiGraph<V>, n: int, m: int)
    requires
        0 <= n <= m,
        (first_connection_error(g, n) is Some),
    ensures
        first_connection_error(g, m) == first_connection_error(g, n),
    decreases m - n,
{
    if n < m {
        lemma_first_error_persists(g, n, m - 1);
    }
}

/// Having registered every input socket of node `i` is having registered
/// those of the nodes before `i + 1`.
proof fn lemma_inputs_next_node<V>(g: &UiGraph<V>, ports: Seq<BjkPort>, index: Map<u64, usize>, i: int)
    requires
        0 <= i < g.nodes@.len(),
        inputs_registered(g, ports, index, i, g.nodes@[i].inputs@.len() as int),
    ensures
        inputs_registered(g, ports, index, i + 1, 0),
{
    let k = g.nodes@[i].inputs@.len() as int;
    assert forall|a: int, b: int| #[trigger] g.has_input_at(a, b)
        implies seen(a, b, i, k) == seen(a, b, i + 1, 0) by {}
    assert forall|a: int, b: int| #[trigger] g.has_input_at(a, b) && seen(a, b, i + 1, 0) implies {
        &&& index.contains_key(g.input_at(a, b).id)
        &&& index[g.input_at(a, b).id] < ports.len()
        &&& ports[index[g.input_at(a, b).id] as int] == input_port(g, a, b)
    } by {
        assert(seen(a, b, i, k));
    }
    assert forall|a: int, x: int, y: int|
        #[trigger] g.has_input_at(a, x) && #[trigger] g.has_input_at(a, y) && x != y
            && seen(a, x, i + 1, 0) && seen(a, y, i + 1, 0)
        implies g.input_at(a, x).name@ != g.input_at(a, y).name@ by {
        assert(seen(a, x, i, k) && seen(a, y, i, k));
    }
    assert forall|p: int| 0 <= p < ports.len() implies #[trigger] input_port_seen(g, ports[p], i + 1, 0) by {
        assert(input_port_seen(g, ports[p], i, k));
        let (a, b) = choose|a: int, b: int| #[trigger] g.has_input_at(a, b)
            && seen(a, b, i, k) && ports[p] == input_port(g, a, b);
        assert(g.has_input_at(a, b) && seen(a, b, i + 1, 0) && ports[p] == input_port(g, a, b));
    }
    assert forall|id: u64| #[trigger] index.contains_key(id) implies exists|a: int, b: int|
        #[trigger] g.has_input_at(a, b) && seen(a, b, i + 1, 0) && g.input_at(a, b).id == id by {
        let (a, b) = choose|a: int, b: int| #[trigger] g.has_input_at(a, b)
            && seen(a, b, i, k) && g.input_at(a, b).id == id;
        assert(seen(a, b, i + 1, 0));
    }
}

/// Having registered every output socket of node `i` is having registered
/// those of the nodes before `i + 1`.
proof fn lemma_outputs_next_node<V>(g: &UiGraph<V>, ports: Seq<BjkPort>, index: Map<u64, usize>, i: int)
    requires
        0 <= i < g.nodes@.len(),
        outputs_registered(g, ports, index, i, g.nodes@[i].outputs@.len() as int),
    ensures
        outputs_registered(g, ports, index, i + 1, 0),
{
    let k = g.nodes@[i].outputs@.len() as int;
    assert forall|a: int, b: int| #[trigger] g.has_output_at(a, b)
        implies seen(a, b, i, k) == seen(a, b, i + 1, 0) by {}
    assert forall|a: int, b: int| #[trigger] g.has_output_at(a, b) && seen(a, b, i + 1, 0) implies {
        &&& index.contains_key(g.output_at(a, b).id)
        &&& index[g.output_at(a, b).id] < ports.len()
        &&& ports[index[g.output_at(a, b).id] as int] == output_port(g, a, b)
    } by {
        assert(seen(a, b, i, k));
    }
    assert forall|a: int, x: int, y: int|
        #[trigger] g.has_output_at(a, x) && #[trigger] g.has_output_at(a, y) && x != y
            && seen(a, x, i + 1, 0) && seen(a, y, i + 1, 0)
        implies g.output_at(a, x).name@ != g.output_at(a, y).name@ by {
        assert(seen(a, x, i, k) && seen(a, y, i, k));
    }
    assert forall|p: int| 0 <= p < ports.len() implies #[trigger] output_port_seen(g, ports[p], i + 1, 0) by {
        assert(output_port_seen(g, ports[p], i, k));
        let (a, b) = choose|a: int, b: int| #[trigger] g.has_output_at(a, b)
            && seen(a, b, i, k) && ports[p] == output_port(g, a, b);
        assert(g.has_output_at(a, b) && seen(a, b, i + 1, 0) && ports[p] == output_port(g, a, b));
    }
    assert forall|id: u64| #[trigger] index.contains_key(id) implies exists|a: int, b: int|
        #[trigger] g.has_output_at(a, b) && seen(a, b, i + 1, 0) && g.output_at(a, b).id == id by {
        let (a, b) = choose|a: int, b: int| #[trigger] g.has_output_at(a, b)
            && seen(a, b, i, k) && g.output_at(a, b).id == id;
        assert(seen(a, b, i + 1, 0));
    }
}

/// Registers the input sockets of node `i` as ports of compiler node `i`.
fn register_inputs<V>(g: &UiGraph<V>, i: usize, bjk: &mut BjkGraph, index: &mut HashMap<u64, usize>) -> (r: Result<(), GraphError>)
    requires
        g.wf(),
        i < g.nodes@.len(),
        old(bjk).wf(),
        old(bjk).nodes@.len() == i + 1,
        inputs_registered(g, old(bjk).inputs@, old(index)@, i as int, 0),
    ensures
        final(bjk).wf(),
        final(bjk).nodes@ == old(bjk).nodes@,
        final(bjk).outputs@ == old(bjk).outputs@,
        final(bjk).connections@ == old(bjk).connections@,
        match r {
            Ok(()) => inputs_registered(g, final(bjk).inputs@, final(index)@, i + 1, 0),
            Err(e) => e == GraphError::DuplicatePort && g.has_duplicate_port(),
        },
{
    let node = &g.nodes[i];
    let mut k: usize = 0;
    while k < node.inputs.len()
        invariant
            g.wf(),
            i < g.nodes@.len(),
            *node == g.nodes@[i as int],
            k <= node.inputs@.len(),
            bjk.wf(),
            bjk.nodes@ == old(bjk).nodes@,
            bjk.nodes@.len() == i + 1,
            bjk.outputs@ == old(bjk).outputs@,
            bjk.connections@ == old(bjk).connections@,
            inputs_registered(g, bjk.inputs@, index@, i as int, k as int),
        decreases node.inputs@.len() - k,
    {
        let inp = &node.inputs[k];
        assert(g.has_input_at(i as int, k as int));
        let ghost ports = bjk.inputs@;
        let ghost idx = index@;
        match bjk.add_input(i, &inp.name, inp.typ) {
            Ok(()) => {},
            Err(e) => {
                proof {
                    assert(e == GraphError::DuplicatePort);
                    assert(has_port(ports, i as int, inp.name@));
                    let p = choose|p: int| 0 <= p < ports.len() && #[trigger] ports[p].node == i
                        && ports[p].name@ == inp.name@;
                    assert(input_port_seen(g, ports[p], i as int, k as int));
                    let (a, b) = choose|a: int, b: int| #[trigger] g.has_input_at(a, b)
                        && seen(a, b, i as int, k as int) && ports[p] == input_port(g, a, b);
                    assert(a == i);
                    assert(g.has_input_at(i as int, b) && g.has_input_at(i as int, k as int));
                }
                return Err(e);
            },
        }
        let pos = bjk.inputs.len() - 1;
        proof {
            if idx.contains_key(inp.id) {
                let (a, b) = choose|a: int, b: int| #[trigger] g.has_input_at(a, b)
                    && seen(a, b, i as int, k as int) && g.input_at(a, b).id == inp.id;
                assert(false);
            }
            assert forall|a: int, x: int| #[trigger] g.has_input_at(a, x) && a == i && x < k
                implies g.input_at(a, x).name@ != inp.name@ by {
                let q = idx[g.input_at(a, x).id] as int;
                assert(ports[q].node == i && ports[q].name@ == g.input_at(a, x).name@);
            }
        }
        index.insert(inp.id, pos);
        proof {
            let ports2 = bjk.inputs@;
            let idx2 = index@;
            assert(ports2[pos as int] == input_port(g, i as int, k as int));
            assert forall|a: int, b: int| #[trigger] g.has_input_at(a, b) && seen(a, b, i as int, k + 1) implies {
                &&& idx2.contains_key(g.input_at(a, b).id)
                &&& idx2[g.input_at(a, b).id] < ports2.len()
                &&& ports2[idx2[g.input_at(a, b).id] as int] == input_port(g, a, b)
            } by {
                if !(a == i && b == k) {
                    assert(seen(a, b, i as int, k as int));
                }
            }
            assert forall|p: int| 0 <= p < ports2.len() implies #[trigger] input_port_seen(g, ports2[p], i as int, k + 1) by {
                if p < ports.len() {
                    assert(ports2[p] == ports[p]);
                    assert(input_port_seen(g, ports[p], i as int, k as int));
                    let (a, b) = choose|a: int, b: int| #[trigger] g.has_input_at(a, b)
                        && seen(a, b, i as int, k as int) && ports[p] == input_port(g, a, b);
                    assert(seen(a, b, i as int, k + 1));
                } else {
                    assert(seen(i as int, k as int, i as int, k + 1));
                }
            }
            assert forall|id: u64| #[trigger] idx2.contains_key(id) implies exists|a: int, b: int|
                #[trigger] g.has_input_at(a, b) && seen(a, b, i as int, k + 1) && g.input_at(a, b).id == id by {
                if id != inp.id {
                    let (a, b) = choose|a: int, b: int| #[trigger] g.has_input_at(a, b)
                        && seen(a, b, i as int, k as int) && g.input_at(a, b).id == id;
                    assert(seen(a, b, i as int, k + 1));
                } else {
                    assert(seen(i as int, k as int, i as int, k + 1));
                }
            }
        }
        k = k + 1;
    }
    proof {
        lemma_inputs_next_node(g, bjk.inputs@, index@, i as int);
    }
    Ok(())
}

/// Registers the output sockets of node `i` as ports of compiler node `i`.
fn register_outputs<V>(g: &UiGraph<V>, i: usize, bjk: &mut BjkGraph, index: &mut HashMap<u64, usize>) -> (r: Result<(), GraphError>)
    requires
        g.wf(),
        i < g.nodes@.len(),
        old(bjk).wf(),
        old(bjk).nodes@.len() == i + 1,
        outputs_registered(g, old(bjk).outputs@, old(index)@, i as int, 0),
    ensures
        final(bjk).wf(),
        final(bjk).nodes@ == old(bjk).nodes@,
        final(bjk).inputs@ == old(bjk).inputs@,
        final(bjk).connections@ == old(bjk).connections@,
        match r {
            Ok(()) => outputs_registered(g, final(bjk).outputs@, final(index)@, i + 1, 0),
            Err(e) => e == GraphError::DuplicatePort && g.has_duplicate_port(),
        },
{
    let node = &g.nodes[i];
    let mut k: usize = 0;
    while k < node.outputs.len()
        invariant
            g.wf(),
            i < g.nodes@.len(),
            *node == g.nodes@[i as int],
            k <= node.outputs@.len(),
            bjk.wf(),
            bjk.nodes@ == old(bjk).nodes@,
            bjk.nodes@.len() == i + 1,
            bjk.inputs@ == old(bjk).inputs@,
            bjk.connections@ == old(bjk).connections@,
            outputs_registered(g, bjk.outputs@, index@, i as int, k as int),
        decreases node.outputs@.len() - k,
    {
        let inp = &node.outputs[k];
        assert(g.has_output_at(i as int, k as int));
        let ghost ports = bjk.outputs@;
        let ghost idx = index@;
        match bjk.add_output(i, &inp.name, inp.typ) {
            Ok(()) => {},
            Err(e) => {
                proof {
                    assert(e == GraphError::DuplicatePort);
                    assert(has_port(ports, i as int, inp.name@));
                    let p = choose|p: int| 0 <= p < ports.len() && #[trigger] ports[p].node == i
                        && ports[p].name@ == inp.name@;
                    assert(output_port_seen(g, ports[p], i as int, k as int));
                    let (a, b) = choose|a: int, b: int| #[trigger] g.has_output_at(a, b)
                        && seen(a, b, i as int, k as int) && ports[p] == output_port(g, a, b);
                    assert(a == i);
                    assert(g.has_output_at(i as int, b) && g.has_output_at(i as int, k as int));
                }
                return Err(e);
            },
        }
        let pos = bjk.outputs.len() - 1;
        proof {
            if idx.contains_key(inp.id) {
                let (a, b) = choose|a: int, b: int| #[trigger] g.has_output_at(a, b)
                    && seen(a, b, i as int, k as int) && g.output_at(a, b).id == inp.id;
                assert(false);
            }
            assert forall|a: int, x: int| #[trigger] g.has_output_at(a, x) && a == i && x < k
                implies g.output_at(a, x).name@ != inp.name@ by {
                let q = idx[g.output_at(a, x).id] as int;
                assert(ports[q].node == i && ports[q].name@ == g.output_at(a, x).name@);
            }
        }
        index.insert(inp.id, pos);
        proof {
            let ports2 = bjk.outputs@;
            let idx2 = index@;
            assert(ports2[pos as int] == output_port(g, i as int, k as int));
            assert forall|a: int, b: int| #[trigger] g.has_output_at(a, b) && seen(a, b, i as int, k + 1) implies {
                &&& idx2.contains_key(g.output_at(a, b).id)
                &&& idx2[g.output_at(a, b).id] < ports2.len()
                &&& ports2[idx2[g.output_at(a, b).id] as int] == output_port(g, a, b)
            } by {
                if !(a == i && b == k) {
                    assert(seen(a, b, i as int, k as int));
                }
            }
            assert forall|p: int| 0 <= p < ports2.len() implies #[trigger] output_port_seen(g, ports2[p], i as int, k + 1) by {
                if p < ports.len() {
                    assert(ports2[p] == ports[p]);
                    assert(output_port_seen(g, ports[p], i as int, k as int));
                    let (a, b) = choose|a: int, b: int| #[trigger] g.has_output_at(a, b)
                        && seen(a, b, i as int, k as int) && ports[p] == output_port(g, a, b);
                    assert(seen(a, b, i as int, k + 1));
                } else {
                    assert(seen(i as int, k as int, i as int, k + 1));
                }
            }
            assert forall|id: u64| #[trigger] idx2.contains_key(id) implies exists|a: int, b: int|
                #[trigger] g.has_output_at(a, b) && seen(a, b, i as int, k + 1) && g.output_at(a, b).id == id by {
                if id != inp.id {
                    let (a, b) = choose|a: int, b: int| #[trigger] g.has_output_at(a, b)
                        && seen(a, b, i as int, k as int) && g.output_at(a, b).id == id;
                    assert(seen(a, b, i as int, k + 1));
                } else {
                    assert(seen(i as int, k as int, i as int, k + 1));
                }
            }
        }
        k = k + 1;
    }
    proof {
        lemma_outputs_next_node(g, bjk.outputs@, index@, i as int);
    }
    Ok(())
}

/// What the translation loops leave behind is a translation.
proof fn lemma_translated<V>(g: &UiGraph<V>, bjk: &BjkGraph, m: &NodeMapping, ii: Map<u64, usize>, oi: Map<u64, usize>)
    requires
        g.wf(),
        bjk.wf(),
        nodes_registered(g, bjk.nodes@, m.to_bjk@, m.to_ui@, g.nodes@.len() as int),
        inputs_registered(g, bjk.inputs@, ii, g.nodes@.len() as int, 0),
        outputs_registered(g, bjk.outputs@, oi, g.nodes@.len() as int, 0),
        bjk.connections@.len() == g.connections@.len(),
        forall|q: int| 0 <= q < g.connections@.len()
            ==> #[trigger] bjk.connections@[q] == connection_of(g, g.connections@[q]),
    ensures
        translates(g, bjk, m),
{
    let n = g.nodes@.len() as int;
    assert forall|a: int| 0 <= a < n implies {
        &&& #[trigger] m.to_ui@[a] == g.nodes@[a].id
        &&& m.to_bjk@.contains_key(g.nodes@[a].id)
        &&& m.to_bjk@[g.nodes@[a].id] == a
    } by {
        assert(bjk.nodes@[a] == bjk_node_of(g, a));
    }
    assert forall|a: int, b: int| #[trigger] g.has_input_at(a, b) implies seen(a, b, n, 0) by {}
    assert forall|a: int, b: int| #[trigger] g.has_output_at(a, b) implies seen(a, b, n, 0) by {}
    assert forall|p: int| 0 <= p < bjk.inputs@.len() implies #[trigger] is_input_port(g, bjk.inputs@[p]) by {
        assert(input_port_seen(g, bjk.inputs@[p], n, 0));
    }
    assert forall|p: int| 0 <= p < bjk.outputs@.len() implies #[trigger] is_output_port(g, bjk.outputs@[p]) by {
        assert(output_port_seen(g, bjk.outputs@[p], n, 0));
    }
}

/// Translates the editor graph into a compiler graph: one compiler node per
/// editor node, in the same order, with a port for each socket, then one
/// connection per editor connection. Fails, with nothing built, on the first
/// rule that the graph breaks.
#[verifier::rlimit(60)]
pub fn ui_graph_to_blackjack_graph<V>(graph: &UiGraph<V>) -> (r: Result<(BjkGraph, NodeMapping), GraphError>)
    requires
        graph.wf(),
    ensures
        match r {
            Ok((bjk, m)) => (translation_error(graph) is None) && translates(graph, &bjk, &m),
            Err(e) => translation_error(graph) == Some(e),
        },
{
    let mut bjk = BjkGraph::new();
    let mut to_bjk: HashMap<u64, usize> = HashMap::new();
    let mut to_ui: Vec<u64> = Vec::new();
    let mut input_index: HashMap<u64, usize> = HashMap::new();
    let mut output_index: HashMap<u64, usize> = HashMap::new();
    let mut i: usize = 0;
    while i < graph.nodes.len()
        invariant
            graph.wf(),
            i <= graph.nodes@.len(),
            bjk.wf(),
            bjk.connections@.len() == 0,
            nodes_registered(graph, bjk.nodes@, to_bjk@, to_ui@, i as int),
            inputs_registered(graph, bjk.inputs@, input_index@, i as int, 0),
            outputs_registered(graph, bjk.outputs@, output_index@, i as int, 0),
        decreases graph.nodes@.len() - i,
    {
        let node = &graph.nodes[i];
        let return_type = match &node.return_type {
            Some(s) => Some(s.clone()),
            None => None,
        };
        let ghost old_to_bjk = to_bjk@;
        let b = bjk.add_node(node.op_name.clone(), return_type);
        proof {
            if old_to_bjk.contains_key(node.id) {
                let a = choose|a: int| 0 <= a < i && #[trigger] graph.nodes@[a].id == node.id;
                assert(graph.nodes@[a].id == graph.nodes@[i as int].id);
            }
        }
        to_bjk.insert(node.id, b);
        to_ui.push(node.id);
        proof {
            assert forall|u: u64| #[trigger] to_bjk@.contains_key(u)
                implies exists|a: int| 0 <= a < i + 1 && #[trigger] graph.nodes@[a].id == u by {
                if u != node.id {
                    let a = choose|a: int| 0 <= a < i && #[trigger] graph.nodes@[a].id == u;
                    assert(graph.nodes@[a].id == u);
                } else {
                    assert(graph.nodes@[i as int].id == u);
                }
            }
            assert(bjk.nodes@[i as int] == bjk_node_of(graph, i as int));
        }
        match register_inputs(graph, i, &mut bjk, &mut input_index) {
            Ok(()) => {},
            Err(e) => {
                return Err(e);
            },
        }
        match register_outputs(graph, i, &mut bjk, &mut output_index) {
            Ok(()) => {},
            Err(e) => {
                return Err(e);
            },
        }
        i = i + 1;
    }
    proof {
        assert forall|a: int, b: int| #[trigger] graph.has_input_at(a, b) implies seen(a, b, i as int, 0) by {}
        assert forall|a: int, b: int| #[trigger] graph.has_output_at(a, b) implies seen(a, b, i as int, 0) by {}
        assert(!graph.has_duplicate_port());
    }
    let ghost n = graph.nodes@.len() as int;
    let mut j: usize = 0;
    while j < graph.connections.len()
        invariant
            graph.wf(),
            !graph.has_duplicate_port(),
            bjk.wf(),
            n == graph.nodes@.len(),
            nodes_registered(graph, bjk.nodes@, to_bjk@, to_ui@, n),
            inputs_registered(graph, bjk.inputs@, input_index@, n, 0),
            outputs_registered(graph, bjk.outputs@, output_index@, n, 0),
            j <= graph.connections@.len(),
            bjk.connections@.len() == j,
            forall|q: int| 0 <= q < j
                ==> #[trigger] bjk.connections@[q] == connection_of(graph, graph.connections@[q]),
            (first_connection_error(graph, j as int) is None),
        decreases graph.connections@.len() - j,
    {
        let (inp, outp) = graph.connections[j];
        let ghost c = graph.connections@[j as int];
        let pi = match input_index.get(&inp) {
            Some(p) => *p,
            None => {
                proof {
                    if graph.has_input_id(inp) {
                        let (a, b) = choose|a: int, b: int| #[trigger] graph.has_input_at(a, b)
                            && graph.input_at(a, b).id == inp;
                        assert(seen(a, b, n, 0));
                    }
                    assert(first_connection_error(graph, j + 1) == Some(GraphError::UnknownPort));
                    lemma_first_error_persists(graph, j + 1, graph.connections@.len() as int);
                }
                return Err(GraphError::UnknownPort);
            },
        };
        let po = match output_index.get(&outp) {
            Some(p) => *p,
            None => {
                proof {
                    if graph.has_output_id(outp) {
                        let (a, b) = choose|a: int, b: int| #[trigger] graph.has_output_at(a, b)
                            && graph.output_at(a, b).id == outp;
                        assert(seen(a, b, n, 0));
                    }
                    assert(first_connection_error(graph, j + 1) == Some(GraphError::UnknownPort));
                    lemma_first_error_persists(graph, j + 1, graph.connections@.len() as int);
                }
                return Err(GraphError::UnknownPort);
            },
        };
        proof {
            let (ia, ib) = choose|a: int, b: int| #[trigger] graph.has_input_at(a, b)
                && seen(a, b, n, 0) && graph.input_at(a, b).id == inp;
            lemma_input_pos(graph, ia, ib);
            let (oa, ob) = choose|a: int, b: int| #[trigger] graph.has_output_at(a, b)
                && seen(a, b, n, 0) && graph.output_at(a, b).id == outp;
            lemma_output_pos(graph, oa, ob);
            crate::bjk_graph::lemma_port_index_unique(bjk.inputs@, n, pi as int);
            crate::bjk_graph::lemma_port_index_unique(bjk.outputs@, n, po as int);
        }
        let dst_node = bjk.inputs[pi].node;
        let dst_param = bjk.inputs[pi].name.clone();
        let src_node = bjk.outputs[po].node;
        let src_param = bjk.outputs[po].name.clone();
        match bjk.add_connection(src_node, &src_param, dst_node, &dst_param) {
            Ok(()) => {},
            Err(e) => {
                proof {
                    assert(first_connection_error(graph, j + 1) == Some(e));
                    lemma_first_error_persists(graph, j + 1, graph.connections@.len() as int);
                }
                return Err(e);
            },
        }
        j = j + 1;
    }
    let m = NodeMapping { to_bjk, to_ui };
    proof {
        lemma_translated(graph, &bjk, &m, input_index@, output_index@);
    }
    Ok((bjk, m))
}

/// Translation accounts for every node and every connection, and the mapping
/// is a bijection between the editor's node identities and `0..N`.
pub proof fn lemma_translation_counts<V>(g: &UiGraph<V>, bjk: &BjkGraph, m: &NodeMapping)
    requires
        g.wf(),
        translates(g, bjk, m),
    ensures
        bjk.nodes@.len() == g.nodes@.len(),
        bjk.connections@.len() == g.connections@.len(),
        m.to_ui@.len() == g.nodes@.len(),
        forall|u: u64| #[trigger] m.to_bjk@.contains_key(u) <==> g.has_node_id(u),
        forall|u: u64| #[trigger] m.to_bjk@.contains_key(u) ==> m.to_bjk@[u] < g.nodes@.len(),
        forall|u: u64, w: u64| #[trigger] m.to_bjk@.contains_key(u) && #[trigger] m.to_bjk@.contains_key(w)
            && m.to_bjk@[u] == m.to_bjk@[w] ==> u == w,
        forall|b: int| 0 <= b < g.nodes@.len() ==> #[trigger] m.to_bjk@[m.to_ui@[b]] == b,
{
    assert forall|u: u64| #[trigger] m.to_bjk@.contains_key(u) <==> g.has_node_id(u) by {
        if g.has_node_id(u) {
            let a = choose|a: int| 0 <= a < g.nodes@.len() && #[trigger] g.nodes@[a].id == u;
            assert(m.to_ui@[a] == u);
        }
    }
    assert forall|u: u64| #[trigger] m.to_bjk@.contains_key(u) implies m.to_bjk@[u] < g.nodes@.len()
        && m.to_ui@[m.to_bjk@[u] as int] == u by {
        let a = choose|a: int| 0 <= a < g.nodes@.len() && #[trigger] g.nodes@[a].id == u;
        assert(m.to_ui@[a] == u);
    }
    assert forall|b: int| 0 <= b < g.nodes@.len() implies #[trigger] m.to_bjk@[m.to_ui@[b]] == b by {
        assert(m.to_ui@[b] == g.nodes@[b].id);
    }
}

/// Going from an editor node to its compiler node and back gives the editor
/// node again, and the other way round.
pub proof fn lemma_mapping_round_trip<V>(g: &UiGraph<V>, m: &NodeMapping, u: u64, b: int)
    requires
        g.wf(),
        m.maps(g),
    ensures
        g.has_node_id(u) ==> m.to_bjk@.contains_key(u) && m.to_bjk@[u] < m.to_ui@.len()
            && m.to_ui@[m.to_bjk@[u] as int] == u,
        0 <= b < m.to_ui@.len() ==> m.to_bjk@.contains_key(m.to_ui@[b]) && m.to_bjk@[m.to_ui@[b]] == b,
{
    if g.has_node_id(u) {
        let a = choose|a: int| 0 <= a < g.nodes@.len() && #[trigger] g.nodes@[a].id == u;
        assert(m.to_ui@[a] == u);
    }
    if 0 <= b < m.to_ui@.len() {
        assert(m.to_ui@[b] == g.nodes@[b].id);
    }
}

} // verus!
