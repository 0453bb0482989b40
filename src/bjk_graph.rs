use vstd::prelude::*;
use crate::graph_error::GraphError;
use crate::ui_graph::DataType;

verus! {

/// A node of the compiler graph. Its identity is its position in `nodes`.
pub struct BjkNode {
    pub op_name: String,
    pub return_type: Option<String>,
}

/// A port registered on a compiler node, addressed by (node, name).
pub struct BjkPort {
    pub node: usize,
    pub name: String,
    pub typ: DataType,
}

/// The output `src_param` of `src_node` feeds the input `dst_param` of `dst_node`.
pub struct BjkConnection {
    pub src_node: usize,
    pub src_param: String,
    pub dst_node: usize,
    pub dst_param: String,
}

/// The graph handed to the program compiler.
pub struct BjkGraph {
    pub nodes: Vec<BjkNode>,
    pub inputs: Vec<BjkPort>,
    pub outputs: Vec<BjkPort>,
    pub connections: Vec<BjkConnection>,
}

/// A port for (node, name) stands in `ports`.
pub open spec fn has_port(ports: Seq<BjkPort>, node: int, name: Seq<char>) -> bool {
    exists|k: int| 0 <= k < ports.len() && #[trigger] ports[k].node == node && ports[k].name@ == name
}

/// The position of the port for (node, name) in `ports`.
pub open spec fn port_index(ports: Seq<BjkPort>, node: int, name: Seq<char>) -> int {
    choose|k: int| 0 <= k < ports.len() && #[trigger] ports[k].node == node && ports[k].name@ == name
}

/// Each port belongs to an existing node, and no two ports share (node, name).
pub open spec fn ports_wf(ports: Seq<BjkPort>, n_nodes: int) -> bool {
    &&& forall|k: int| 0 <= k < ports.len() ==> #[trigger] ports[k].node < n_nodes
    &&& forall|a: int, b: int|
        0 <= a < ports.len() && 0 <= b < ports.len() && a != b
            ==> !(#[trigger] ports[a].node == #[trigger] ports[b].node
                && ports[a].name@ == ports[b].name@)
}

/// Where the port for (node, name) is found, it is the one `port_index` names.
pub proof fn lemma_port_index_unique(ports: Seq<BjkPort>, n_nodes: int, k: int)
    requires
        ports_wf(ports, n_nodes),
        0 <= k < ports.len(),
    ensures
        has_port(ports, ports[k].node as int, ports[k].name@),
        port_index(ports, ports[k].node as int, ports[k].name@) == k,
{
    let node = ports[k].node as int;
    let name = ports[k].name@;
    assert(ports[k].node == node && ports[k].name@ == name);
    let j = port_index(ports, node, name);
    assert(ports[j].node == ports[k].node);
}

/// Finds the port for (node, name).
fn find_port(ports: &Vec<BjkPort>, node: usize, name: &String) -> (r: Option<usize>)
    ensures
        match r {
            Some(k) => k < ports@.len() && ports@[k as int].node == node
                && ports@[k as int].name@ == name@,
            None => !has_port(ports@, node as int, name@),
        },
{
    let mut k: usize = 0;
    while k < ports.len()
        invariant
            k <= ports@.len(),
            forall|j: int| 0 <= j < k ==> !(#[trigger] ports@[j].node == node
                && ports@[j].name@ == name@),
        decreases ports@.len() - k,
    {
        if ports[k].node == node && ports[k].name == *name {
            return Some(k);
        }
        k = k + 1;
    }
    None
}

impl BjkGraph {
    pub open spec fn wf(&self) -> bool {
        &&& ports_wf(self.inputs@, self.nodes@.len() as int)
        &&& ports_wf(self.outputs@, self.nodes@.len() as int)
    }

    /// Why connecting output `sp` of `src` to input `dp` of `dst` fails, if it does.
    pub open spec fn connection_error(&self, src: int, sp: Seq<char>, dst: int, dp: Seq<char>) -> Option<GraphError> {
        if src >= self.nodes@.len() || dst >= self.nodes@.len() {
            Some(GraphError::UnknownNode)
        } else if !has_port(self.outputs@, src, sp) || !has_port(self.inputs@, dst, dp) {
            Some(GraphError::UnknownPort)
        } else if self.outputs@[port_index(self.outputs@, src, sp)].typ
            != self.inputs@[port_index(self.inputs@, dst, dp)].typ {
            Some(GraphError::TypeMismatch)
        } else {
            None
        }
    }

    pub fn new() -> (r: BjkGraph)
        ensures
            r.wf(),
            r.nodes@.len() == 0,
            r.inputs@.len() == 0,
            r.outputs@.len() == 0,
            r.connections@.len() == 0,
    {
        BjkGraph { nodes: Vec::new(), inputs: Vec::new(), outputs: Vec::new(), connections: Vec::new() }
    }

    /// Adds a node without ports and gives back its identity.
    pub fn add_node(&mut self, op_name: String, return_type: Option<String>) -> (r: usize)
        requires
            old(self).wf(),
            old(self).nodes@.len() < usize::MAX,
        ensures
            final(self).wf(),
            r == old(self).nodes@.len(),
            final(self).nodes@ == old(self).nodes@.push(BjkNode { op_name, return_type }),
            final(self).inputs@ == old(self).inputs@,
            final(self).outputs@ == old(self).outputs@,
            final(self).connections@ == old(self).connections@,
    {
        let r = self.nodes.len();
        self.nodes.push(BjkNode { op_name, return_type });
        r
    }

    /// Registers input `name` of type `typ` on `node`.
    pub fn add_input(&mut self, node: usize, name: &String, typ: DataType) -> (r: Result<(), GraphError>)
        requires
            old(self).wf(),
        ensures
            final(self).wf(),
            final(self).nodes@ == old(self).nodes@,
            final(self).outputs@ == old(self).outputs@,
            final(self).connections@ == old(self).connections@,
            match r {
                Ok(()) => node < old(self).nodes@.len()
                    && !has_port(old(self).inputs@, node as int, name@)
                    && final(self).inputs@ == old(self).inputs@.push(BjkPort { node, name: *name, typ }),
                Err(e) => final(self).inputs@ == old(self).inputs@
                    && (e == GraphError::UnknownNode <==> node >= old(self).nodes@.len())
                    && (e == GraphError::DuplicatePort <==> node < old(self).nodes@.len()
                        && has_port(old(self).inputs@, node as int, name@))
                    && (e == GraphError::UnknownNode || e == GraphError::DuplicatePort),
            },
    {
        if node >= self.nodes.len() {
            return Err(GraphError::UnknownNode);
        }
        if find_port(&self.inputs, node, name).is_some() {
            return Err(GraphError::DuplicatePort);
        }
        self.inputs.push(BjkPort { node, name: name.clone(), typ });
        Ok(())
    }

    /// Registers output `name` of type `typ` on `node`.
    pub fn add_output(&mut self, node: usize, name: &String, typ: DataType) -> (r: Result<(), GraphError>)
        requires
            old(self).wf(),
        ensures
            final(self).wf(),
            final(self).nodes@ == old(self).nodes@,
            final(self).inputs@ == old(self).inputs@,
            final(self).connections@ == old(self).connections@,
            match r {
                Ok(()) => node < old(self).nodes@.len()
                    && !has_port(old(self).outputs@, node as int, name@)
                    && final(self).outputs@ == old(self).outputs@.push(BjkPort { node, name: *name, typ }),
                Err(e) => final(self).outputs@ == old(self).outputs@
                    && (e == GraphError::UnknownNode <==> node >= old(self).nodes@.len())
                    && (e == GraphError::DuplicatePort <==> node < old(self).nodes@.len()
                        && has_port(old(self).outputs@, node as int, name@))
                    && (e == GraphError::UnknownNode || e == GraphError::DuplicatePort),
            },
    {
        if node >= self.nodes.len() {
            return Err(GraphError::UnknownNode);
        }
        if find_port(&self.outputs, node, name).is_some() {
            return Err(GraphError::DuplicatePort);
        }
        self.outputs.push(BjkPort { node, name: name.clone(), typ });
        Ok(())
    }

    /// Connects output `src_param` of `src_node` to input `dst_param` of
    /// `dst_node`. Both ports must be registered and of one type.
    pub fn add_connection(&mut self, src_node: usize, src_param: &String, dst_node: usize, dst_param: &String) -> (r: Result<(), GraphError>)
        requires
            old(self).wf(),
        ensures
            final(self).wf(),
            final(self).nodes@ == old(self).nodes@,
            final(self).inputs@ == old(self).inputs@,
            final(self).outputs@ == old(self).outputs@,
            match old(self).connection_error(src_node as int, src_param@, dst_node as int, dst_param@) {
                None => r is Ok && final(self).connections@ == old(self).connections@.push(
                    BjkConnection { src_node, src_param: *src_param, dst_node, dst_param: *dst_param }),
                Some(e) => r == Err::<(), GraphError>(e) && final(self).connections@ == old(self).connections@,
            },
    {
        if src_node >= self.nodes.len() || dst_node >= self.nodes.len() {
            return Err(GraphError::UnknownNode);
        }
        let o = find_port(&self.outputs, src_node, src_param);
        let i = find_port(&self.inputs, dst_node, dst_param);
        match (o, i) {
            (Some(o), Some(i)) => {
                proof {
                    lemma_port_index_unique(self.outputs@, self.nodes@.len() as int, o as int);
                    lemma_port_index_unique(self.inputs@, self.nodes@.len() as int, i as int);
                }
                if self.outputs[o].typ != self.inputs[i].typ {
                    return Err(GraphError::TypeMismatch);
                }
                self.connections.push(BjkConnection {
                    src_node,
                    src_param: src_param.clone(),
                    dst_node,
                    dst_param: dst_param.clone(),
                });
                Ok(())
            },
            _ => Err(GraphError::UnknownPort),
        }
    }
}

} // verus!
