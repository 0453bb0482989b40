use vstd::prelude::*;
use std::collections::HashSet;

verus! {

broadcast use vstd::std_specs::hash::group_hash_axioms;

/// The type of a socket, on the editor's side as on the compiler's.
#[derive(Clone, Copy, Debug, PartialEq, Eq, Structural)]
pub enum DataType {
    Vector,
    Scalar,
    Selection,
    Mesh,
    String,
    HeightMap,
}

/// An input socket of an editor node. Its value is edited by a widget and is
/// used when no connection feeds the socket.
pub struct UiInput<V> {
    pub id: u64,
    pub name: String,
    pub typ: DataType,
    pub value: V,
}

/// An output socket of an editor node.
pub struct UiOutput {
    pub id: u64,
    pub name: String,
    pub typ: DataType,
}

/// A node of the editor graph: an operation with named, typed sockets.
pub struct UiNode<V> {
    pub id: u64,
    pub op_name: String,
    pub return_type: Option<String>,
    pub inputs: Vec<UiInput<V>>,
    pub outputs: Vec<UiOutput>,
}

/// The graph the user edits. A connection is a pair (input socket id,
/// output socket id): the output feeds the input.
pub struct UiGraph<V> {
    pub nodes: Vec<UiNode<V>>,
    pub connections: Vec<(u64, u64)>,
}

impl<V> UiGraph<V> {
    /// Node identities are unique, and so are socket identities.
    pub open spec fn wf(&self) -> bool {
        &&& self.unique_node_ids()
        &&& self.unique_input_ids()
        &&& self.unique_output_ids()
    }

    pub open spec fn unique_node_ids(&self) -> bool {
        forall|a: int, b: int|
            0 <= a < self.nodes@.len() && 0 <= b < self.nodes@.len() && a != b
                ==> #[trigger] self.nodes@[a].id != #[trigger] self.nodes@[b].id
    }

    pub open spec fn unique_input_ids(&self) -> bool {
        forall|a: int, ka: int, b: int, kb: int|
            #[trigger] self.has_input_at(a, ka) && #[trigger] self.has_input_at(b, kb)
                && self.input_at(a, ka).id == self.input_at(b, kb).id ==> a == b && ka == kb
    }

    pub open spec fn unique_output_ids(&self) -> bool {
        forall|a: int, ka: int, b: int, kb: int|
            #[trigger] self.has_output_at(a, ka) && #[trigger] self.has_output_at(b, kb)
                && self.output_at(a, ka).id == self.output_at(b, kb).id ==> a == b && ka == kb
    }

    pub open spec fn has_input_at(&self, i: int, k: int) -> bool {
        0 <= i < self.nodes@.len() && 0 <= k < self.nodes@[i].inputs@.len()
    }

    pub open spec fn has_output_at(&self, i: int, k: int) -> bool {
        0 <= i < self.nodes@.len() && 0 <= k < self.nodes@[i].outputs@.len()
    }

    pub open spec fn input_at(&self, i: int, k: int) -> UiInput<V> {
        self.nodes@[i].inputs@[k]
    }

    pub open spec fn output_at(&self, i: int, k: int) -> UiOutput {
        self.nodes@[i].outputs@[k]
    }

    /// Some input socket carries identity `id`.
    pub open spec fn has_input_id(&self, id: u64) -> bool {
        exists|i: int, k: int| #[trigger] self.has_input_at(i, k) && self.input_at(i, k).id == id
    }

    /// Some output socket carries identity `id`.
    pub open spec fn has_output_id(&self, id: u64) -> bool {
        exists|i: int, k: int| #[trigger] self.has_output_at(i, k) && self.output_at(i, k).id == id
    }

    /// Where the input socket `id` stands: (node position, socket position).
    pub open spec fn input_pos(&self, id: u64) -> (int, int) {
        choose|p: (int, int)| #[trigger] self.has_input_at(p.0, p.1) && self.input_at(p.0, p.1).id == id
    }

    /// Where the output socket `id` stands: (node position, socket position).
    pub open spec fn output_pos(&self, id: u64) -> (int, int) {
        choose|p: (int, int)| #[trigger] self.has_output_at(p.0, p.1) && self.output_at(p.0, p.1).id == id
    }

    /// Some node of the graph has identity `id`.
    pub open spec fn has_node_id(&self, id: u64) -> bool {
        exists|i: int| 0 <= i < self.nodes@.len() && #[trigger] self.nodes@[i].id == id
    }

    /// Two input sockets of one node share a name, or two output sockets do.
    pub open spec fn has_duplicate_port(&self) -> bool {
        (exists|i: int, a: int, b: int|
            #[trigger] self.has_input_at(i, a) && #[trigger] self.has_input_at(i, b) && a != b
                && self.input_at(i, a).name@ == self.input_at(i, b).name@)
        || (exists|i: int, a: int, b: int|
            #[trigger] self.has_output_at(i, a) && #[trigger] self.has_output_at(i, b) && a != b
                && self.output_at(i, a).name@ == self.output_at(i, b).name@)
    }
}

impl<V> UiNode<V> {
    /// The first input socket named `name`.
    pub open spec fn input_named(&self, name: Seq<char>) -> Option<int> {
        if exists|k: int| 0 <= k < self.inputs@.len() && #[trigger] self.inputs@[k].name@ == name {
            Some(choose|k: int| 0 <= k < self.inputs@.len() && #[trigger] self.inputs@[k].name@ == name
                && forall|j: int| 0 <= j < k ==> #[trigger] self.inputs@[j].name@ != name)
        } else {
            None
        }
    }

    /// Finds the first input socket named `name`.
    pub fn get_input(&self, name: &String) -> (r: Option<usize>)
        ensures
            r == (match self.input_named(name@) {
                Some(k) => Some(k as usize),
                None => None::<usize>,
            }),
            r matches Some(k) ==> k < self.inputs@.len() && self.input_named(name@) == Some(k as int),
    {
        let mut k: usize = 0;
        while k < self.inputs.len()
            invariant
                k <= self.inputs@.len(),
                forall|j: int| 0 <= j < k ==> #[trigger] self.inputs@[j].name@ != name@,
            decreases self.inputs@.len() - k,
        {
            if self.inputs[k].name == *name {
                proof {
                    let c = choose|c: int| 0 <= c < self.inputs@.len() && #[trigger] self.inputs@[c].name@ == name@
                        && forall|j: int| 0 <= j < c ==> #[trigger] self.inputs@[j].name@ != name@;
                    assert(self.inputs@[k as int].name@ == name@);
                    if c < k {
                        assert(self.inputs@[c].name@ != name@);
                    }
                    if c > k {
                        assert(self.inputs@[k as int].name@ != name@);
                    }
                }
                return Some(k);
            }
            k = k + 1;
        }
        None
    }
}

impl<V> UiGraph<V> {
    /// The position of the node with identity `id`.
    pub open spec fn node_pos(&self, id: u64) -> int {
        choose|a: int| 0 <= a < self.nodes@.len() && #[trigger] self.nodes@[a].id == id
    }

    /// Finds the node with identity `id`.
    pub fn node_index(&self, id: u64) -> (r: Option<usize>)
        requires
            self.wf(),
        ensures
            r == (if self.has_node_id(id) { Some(self.node_pos(id) as usize) } else { None::<usize> }),
            r matches Some(a) ==> a < self.nodes@.len() && self.nodes@[a as int].id == id
                && self.node_pos(id) == a,
    {
        let mut a: usize = 0;
        while a < self.nodes.len()
            invariant
                self.wf(),
                a <= self.nodes@.len(),
                forall|j: int| 0 <= j < a ==> #[trigger] self.nodes@[j].id != id,
            decreases self.nodes@.len() - a,
        {
            if self.nodes[a].id == id {
                proof {
                    assert(self.nodes@[a as int].id == id);
                    assert(self.has_node_id(id));
                    let c = self.node_pos(id);
                    assert(0 <= c < self.nodes@.len() && self.nodes@[c].id == id);
                    if c != a {
                        assert(self.nodes@[c].id != self.nodes@[a as int].id);
                    }
                }
                return Some(a);
            }
            a = a + 1;
        }
        None
    }
}

impl<V> UiGraph<V> {
    /// Tells whether node identities, and socket identities, are unique.
    pub fn is_well_formed(&self) -> (r: bool)
        ensures
            r == self.wf(),
    {
        self.has_unique_node_ids() && self.has_unique_input_ids() && self.has_unique_output_ids()
    }

    fn has_unique_node_ids(&self) -> (r: bool)
        ensures
            r == self.unique_node_ids(),
    {
        let mut ids: HashSet<u64> = HashSet::new();
        let mut a: usize = 0;
        while a < self.nodes.len()
            invariant
                a <= self.nodes@.len(),
                forall|id: u64| #[trigger] ids@.contains(id) <==> exists|j: int| 0 <= j < a && #[trigger] self.nodes@[j].id == id,
                forall|x: int, y: int| 0 <= x < a && 0 <= y < a && x != y
                    ==> #[trigger] self.nodes@[x].id != #[trigger] self.nodes@[y].id,
            decreases self.nodes@.len() - a,
        {
            let id = self.nodes[a].id;
            if ids.contains(&id) {
                proof {
                    let j = choose|j: int| 0 <= j < a && #[trigger] self.nodes@[j].id == id;
                    assert(self.nodes@[j].id == self.nodes@[a as int].id);
                }
                return false;
            }
            let ghost old_ids = ids@;
            ids.insert(id);
            proof {
                assert forall|u: u64| #[trigger] ids@.contains(u) implies exists|j: int| 0 <= j < a + 1 && #[trigger] self.nodes@[j].id == u by {
                    if u != id {
                        let j = choose|j: int| 0 <= j < a && #[trigger] self.nodes@[j].id == u;
                        assert(self.nodes@[j].id == u);
                    } else {
                        assert(self.nodes@[a as int].id == u);
                    }
                }
                assert forall|x: int, y: int| 0 <= x < a + 1 && 0 <= y < a + 1 && x != y
                    implies #[trigger] self.nodes@[x].id != #[trigger] self.nodes@[y].id by {
                    if x == a && y < a && self.nodes@[y].id == id {
                        assert(old_ids.contains(self.nodes@[y].id));
                    }
                    if y == a && x < a && self.nodes@[x].id == id {
                        assert(old_ids.contains(self.nodes@[x].id));
                    }
                }
            }
            a = a + 1;
        }
        true
    }
}

/// Socket (a, b) comes before socket (i, k) in node-major order.
pub open spec fn precedes(a: int, b: int, i: int, k: int) -> bool {
    a < i || (a == i && b < k)
}

/// Position (a, b) holds an identity of `t`.
pub open spec fn table_has_at(t: Seq<Vec<u64>>, a: int, b: int) -> bool {
    0 <= a < t.len() && 0 <= b < t[a]@.len()
}

/// No identity occurs twice in `t`.
pub open spec fn table_unique(t: Seq<Vec<u64>>) -> bool {
    forall|a: int, ka: int, b: int, kb: int|
        #[trigger] table_has_at(t, a, ka) && #[trigger] table_has_at(t, b, kb)
            && t[a]@[ka] == t[b]@[kb] ==> a == b && ka == kb
}

/// The identities in `t` before (i, k) are those in `ids`, and are unique.
pub open spec fn ids_scanned(t: Seq<Vec<u64>>, ids: Set<u64>, i: int, k: int) -> bool {
    &&& forall|id: u64| #[trigger] ids.contains(id) <==> exists|a: int, b: int|
        #[trigger] table_has_at(t, a, b) && precedes(a, b, i, k) && t[a]@[b] == id
    &&& forall|a: int, ka: int, b: int, kb: int|
        #[trigger] table_has_at(t, a, ka) && #[trigger] table_has_at(t, b, kb)
            && precedes(a, ka, i, k) && precedes(b, kb, i, k)
            && t[a]@[ka] == t[b]@[kb] ==> a == b && ka == kb
}

/// Tells whether no identity occurs twice in `t`.
fn ids_unique(t: &Vec<Vec<u64>>) -> (r: bool)
    ensures
        r == table_unique(t@),
{
    let mut ids: HashSet<u64> = HashSet::new();
    let mut i: usize = 0;
    while i < t.len()
        invariant
            i <= t@.len(),
            ids_scanned(t@, ids@, i as int, 0),
        decreases t@.len() - i,
    {
        let row = &t[i];
        let mut k: usize = 0;
        while k < row.len()
            invariant
                i < t@.len(),
                *row == t@[i as int],
                k <= row@.len(),
                ids_scanned(t@, ids@, i as int, k as int),
            decreases row@.len() - k,
        {
            let id = row[k];
            assert(table_has_at(t@, i as int, k as int));
            if ids.contains(&id) {
                proof {
                    let (a, b) = choose|a: int, b: int| #[trigger] table_has_at(t@, a, b)
                        && precedes(a, b, i as int, k as int) && t@[a]@[b] == id;
                    assert(t@[a]@[b] == t@[i as int]@[k as int]);
                }
                return false;
            }
            let ghost old_ids = ids@;
            ids.insert(id);
            proof {
                assert forall|u: u64| #[trigger] ids@.contains(u) <==> exists|a: int, b: int|
                    #[trigger] table_has_at(t@, a, b) && precedes(a, b, i as int, k + 1) && t@[a]@[b] == u by {
                    if ids@.contains(u) {
                        if u != id {
                            let (a, b) = choose|a: int, b: int| #[trigger] table_has_at(t@, a, b)
                                && precedes(a, b, i as int, k as int) && t@[a]@[b] == u;
                            assert(precedes(a, b, i as int, k + 1));
                        } else {
                            assert(precedes(i as int, k as int, i as int, k + 1));
                        }
                    }
                    if exists|a: int, b: int| #[trigger] table_has_at(t@, a, b) && precedes(a, b, i as int, k + 1)
                        && t@[a]@[b] == u {
                        let (a, b) = choose|a: int, b: int| #[trigger] table_has_at(t@, a, b)
                            && precedes(a, b, i as int, k + 1) && t@[a]@[b] == u;
                        if !(a == i && b == k) {
                            assert(precedes(a, b, i as int, k as int));
                        }
                    }
                }
                assert forall|a: int, ka: int, b: int, kb: int|
                    #[trigger] table_has_at(t@, a, ka) && #[trigger] table_has_at(t@, b, kb)
                        && precedes(a, ka, i as int, k + 1) && precedes(b, kb, i as int, k + 1)
                        && t@[a]@[ka] == t@[b]@[kb] implies a == b && ka == kb by {
                    if (a == i && ka == k) && !(b == i && kb == k) {
                        assert(precedes(b, kb, i as int, k as int));
                        assert(old_ids.contains(t@[b]@[kb]));
                    }
                    if (b == i && kb == k) && !(a == i && ka == k) {
                        assert(precedes(a, ka, i as int, k as int));
                        assert(old_ids.contains(t@[a]@[ka]));
                    }
                }
            }
            k = k + 1;
        }
        proof {
            let n = row@.len() as int;
            assert forall|a: int, b: int| #[trigger] table_has_at(t@, a, b)
                implies precedes(a, b, i as int, n) == precedes(a, b, i + 1, 0) by {}
            assert forall|u: u64| #[trigger] ids@.contains(u) <==> exists|a: int, b: int|
                #[trigger] table_has_at(t@, a, b) && precedes(a, b, i + 1, 0) && t@[a]@[b] == u by {
                if ids@.contains(u) {
                    let (a, b) = choose|a: int, b: int| #[trigger] table_has_at(t@, a, b)
                        && precedes(a, b, i as int, n) && t@[a]@[b] == u;
                    assert(precedes(a, b, i + 1, 0));
                }
                if exists|a: int, b: int| #[trigger] table_has_at(t@, a, b) && precedes(a, b, i + 1, 0)
                    && t@[a]@[b] == u {
                    let (a, b) = choose|a: int, b: int| #[trigger] table_has_at(t@, a, b)
                        && precedes(a, b, i + 1, 0) && t@[a]@[b] == u;
                    assert(precedes(a, b, i as int, n));
                }
            }
            assert forall|a: int, ka: int, b: int, kb: int|
                #[trigger] table_has_at(t@, a, ka) && #[trigger] table_has_at(t@, b, kb)
                    && precedes(a, ka, i + 1, 0) && precedes(b, kb, i + 1, 0)
                    && t@[a]@[ka] == t@[b]@[kb] implies a == b && ka == kb by {
                assert(precedes(a, ka, i as int, n) && precedes(b, kb, i as int, n));
            }
        }
        i = i + 1;
    }
    proof {
        assert forall|a: int, ka: int, b: int, kb: int|
            #[trigger] table_has_at(t@, a, ka) && #[trigger] table_has_at(t@, b, kb)
                && t@[a]@[ka] == t@[b]@[kb] implies a == b && ka == kb by {
            assert(precedes(a, ka, i as int, 0) && precedes(b, kb, i as int, 0));
        }
    }
    true
}

impl<V> UiGraph<V> {
    /// The identities of the input sockets, node by node.
    fn input_id_table(&self) -> (t: Vec<Vec<u64>>)
        ensures
            t@.len() == self.nodes@.len(),
            forall|a: int| 0 <= a < t@.len() ==> #[trigger] t@[a]@.len() == self.nodes@[a].inputs@.len(),
            forall|a: int, b: int| #[trigger] self.has_input_at(a, b) ==> t@[a]@[b] == self.input_at(a, b).id,
    {
        let mut t: Vec<Vec<u64>> = Vec::new();
        let mut i: usize = 0;
        while i < self.nodes.len()
            invariant
                i <= self.nodes@.len(),
                t@.len() == i,
                forall|a: int| 0 <= a < i ==> #[trigger] t@[a]@.len() == self.nodes@[a].inputs@.len(),
                forall|a: int, b: int| #[trigger] self.has_input_at(a, b) && a < i ==> t@[a]@[b] == self.input_at(a, b).id,
            decreases self.nodes@.len() - i,
        {
            let node = &self.nodes[i];
            let mut row: Vec<u64> = Vec::new();
            let mut k: usize = 0;
            while k < node.inputs.len()
                invariant
                    *node == self.nodes@[i as int],
                    k <= node.inputs@.len(),
                    row@.len() == k,
                    forall|b: int| 0 <= b < k ==> #[trigger] row@[b] == node.inputs@[b].id,
                decreases node.inputs@.len() - k,
            {
                row.push(node.inputs[k].id);
                k = k + 1;
            }
            t.push(row);
            proof {
                assert forall|a: int, b: int| #[trigger] self.has_input_at(a, b) && a < i + 1
                    implies t@[a]@[b] == self.input_at(a, b).id by {
                    if a == i {
                        assert(row@[b] == node.inputs@[b].id);
                    }
                }
            }
            i = i + 1;
        }
        t
    }

    fn has_unique_input_ids(&self) -> (r: bool)
        ensures
            r == self.unique_input_ids(),
    {
        let t = self.input_id_table();
        let r = ids_unique(&t);
        proof {
            assert forall|a: int, b: int| #[trigger] table_has_at(t@, a, b) == self.has_input_at(a, b) by {
                if 0 <= a < t@.len() {
                    assert(t@[a]@.len() == self.nodes@[a].inputs@.len());
                }
            }
            if r {
                assert forall|a: int, ka: int, b: int, kb: int|
                    #[trigger] self.has_input_at(a, ka) && #[trigger] self.has_input_at(b, kb)
                        && self.input_at(a, ka).id == self.input_at(b, kb).id implies a == b && ka == kb by {
                    assert(table_has_at(t@, a, ka) && table_has_at(t@, b, kb));
                }
            } else {
                let (a, ka, b, kb) = choose|a: int, ka: int, b: int, kb: int|
                    #[trigger] table_has_at(t@, a, ka) && #[trigger] table_has_at(t@, b, kb)
                        && t@[a]@[ka] == t@[b]@[kb] && !(a == b && ka == kb);
                assert(self.has_input_at(a, ka) && self.has_input_at(b, kb));
            }
        }
        r
    }
}

impl<V> UiGraph<V> {
    /// The identities of the output sockets, node by node.
    fn output_id_table(&self) -> (t: Vec<Vec<u64>>)
        ensures
            t@.len() == self.nodes@.len(),
            forall|a: int| 0 <= a < t@.len() ==> #[trigger] t@[a]@.len() == self.nodes@[a].outputs@.len(),
            forall|a: int, b: int| #[trigger] self.has_output_at(a, b) ==> t@[a]@[b] == self.output_at(a, b).id,
    {
        let mut t: Vec<Vec<u64>> = Vec::new();
        let mut i: usize = 0;
        while i < self.nodes.len()
            invariant
                i <= self.nodes@.len(),
                t@.len() == i,
                forall|a: int| 0 <= a < i ==> #[trigger] t@[a]@.len() == self.nodes@[a].outputs@.len(),
                forall|a: int, b: int| #[trigger] self.has_output_at(a, b) && a < i ==> t@[a]@[b] == self.output_at(a, b).id,
            decreases self.nodes@.len() - i,
        {
            let node = &self.nodes[i];
            let mut row: Vec<u64> = Vec::new();
            let mut k: usize = 0;
            while k < node.outputs.len()
                invariant
                    *node == self.nodes@[i as int],
                    k <= node.outputs@.len(),
                    row@.len() == k,
                    forall|b: int| 0 <= b < k ==> #[trigger] row@[b] == node.outputs@[b].id,
                decreases node.outputs@.len() - k,
            {
                row.push(node.outputs[k].id);
                k = k + 1;
            }
            t.push(row);
            proof {
                assert forall|a: int, b: int| #[trigger] self.has_output_at(a, b) && a < i + 1
                    implies t@[a]@[b] == self.output_at(a, b).id by {
                    if a == i {
                        assert(row@[b] == node.outputs@[b].id);
                    }
                }
            }
            i = i + 1;
        }
        t
    }

    fn has_unique_output_ids(&self) -> (r: bool)
        ensures
            r == self.unique_output_ids(),
    {
        let t = self.output_id_table();
        let r = ids_unique(&t);
        proof {
            assert forall|a: int, b: int| #[trigger] table_has_at(t@, a, b) == self.has_output_at(a, b) by {
                if 0 <= a < t@.len() {
                    assert(t@[a]@.len() == self.nodes@[a].outputs@.len());
                }
            }
            if r {
                assert forall|a: int, ka: int, b: int, kb: int|
                    #[trigger] self.has_output_at(a, ka) && #[trigger] self.has_output_at(b, kb)
                        && self.output_at(a, ka).id == self.output_at(b, kb).id implies a == b && ka == kb by {
                    assert(table_has_at(t@, a, ka) && table_has_at(t@, b, kb));
                }
            } else {
                let (a, ka, b, kb) = choose|a: int, ka: int, b: int, kb: int|
                    #[trigger] table_has_at(t@, a, ka) && #[trigger] table_has_at(t@, b, kb)
                        && t@[a]@[ka] == t@[b]@[kb] && !(a == b && ka == kb);
                assert(self.has_output_at(a, ka) && self.has_output_at(b, kb));
            }
        }
        r
    }
}

} // verus!
