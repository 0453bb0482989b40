use vstd::prelude::*;
use crate::interop::NodeMapping;
use crate::ui_graph::UiGraph;

verus! {

/// A program input that a widget supplies: input `param_name` of compiler
/// node `node_id`, handed to the runtime under `addr`.
pub struct ExternalParameterDef {
    pub node_id: usize,
    pub param_name: String,
    pub addr: String,
}

/// What the program compiler hands back: the program text and the inputs
/// that widgets supply.
pub struct CompiledProgram {
    pub lua_program: String,
    pub external_parameters: Vec<ExternalParameterDef>,
}

/// Why an external parameter cannot be resolved against the editor graph.
#[derive(Clone, Copy, Debug, PartialEq, Eq, Structural)]
pub enum ParamError {
    /// The compiler node is not in the mapping, or its editor node is gone.
    UnknownNode,
    /// The editor node has no input of the parameter's name.
    UnknownInput,
}

/// Parameter values by address. Entries are kept in insertion order and a
/// later entry for an address shadows the earlier ones.
pub struct ExternalParameterValues<V> {
    pub entries: Vec<(String, V)>,
}

/// The table that the first `n` entries describe.
pub open spec fn entries_map<V>(entries: Seq<(String, V)>, n: int) -> Map<Seq<char>, V>
    decreases n,
{
    if n <= 0 {
        Map::empty()
    } else {
        entries_map(entries, n - 1).insert(entries[n - 1].0@, entries[n - 1].1)
    }
}

/// Entries past `i` that do not name `k` leave its lookup as it was at `i`.
proof fn lemma_entries_map_skip<V>(entries: Seq<(String, V)>, i: int, n: int, k: Seq<char>)
    requires
        0 <= i <= n <= entries.len(),
        forall|j: int| i <= j < n ==> #[trigger] entries[j].0@ != k,
    ensures
        entries_map(entries, n).contains_key(k) == entries_map(entries, i).contains_key(k),
        entries_map(entries, n)[k] == entries_map(entries, i)[k],
    decreases n - i,
{
    if i < n {
        assert(entries[n - 1].0@ != k);
        lemma_entries_map_skip(entries, i, n - 1, k);
    }
}

impl<V> ExternalParameterValues<V> {
    /// The table as a map from address to value.
    pub open spec fn view_map(&self) -> Map<Seq<char>, V> {
        entries_map(self.entries@, self.entries@.len() as int)
    }
}

impl<V: Copy> ExternalParameterValues<V> {
    pub fn new() -> (r: Self)
        ensures
            r.view_map() == Map::<Seq<char>, V>::empty(),
    {
        ExternalParameterValues { entries: Vec::new() }
    }

    /// Sets the value of `addr`, replacing any earlier one.
    pub fn insert(&mut self, addr: String, value: V)
        ensures
            final(self).view_map() == old(self).view_map().insert(addr@, value),
    {
        self.entries.push((addr, value));
        proof {
            assert(self.entries@.drop_last() == old(self).entries@);
            lemma_entries_map_prefix(self.entries@, old(self).entries@);
        }
    }

    /// The value held for `addr`.
    pub fn get(&self, addr: &String) -> (r: Option<V>)
        ensures
            r == (if self.view_map().contains_key(addr@) { Some(self.view_map()[addr@]) } else { None::<V> }),
    {
        let mut i: usize = self.entries.len();
        while i > 0
            invariant
                i <= self.entries@.len(),
                forall|j: int| i <= j < self.entries@.len() ==> #[trigger] self.entries@[j].0@ != addr@,
            decreases i,
        {
            if self.entries[i - 1].0 == *addr {
                proof {
                    lemma_entries_map_skip(self.entries@, i as int, self.entries@.len() as int, addr@);
                }
                return Some(self.entries[i - 1].1);
            }
            i = i - 1;
        }
        proof {
            lemma_entries_map_skip(self.entries@, 0, self.entries@.len() as int, addr@);
        }
        None
    }
}

/// A table built over a longer list agrees with the prefix on the prefix.
proof fn lemma_entries_map_prefix<V>(entries: Seq<(String, V)>, prefix: Seq<(String, V)>)
    requires
        entries.len() >= 1,
        prefix == entries.drop_last(),
    ensures
        entries_map(entries, entries.len() - 1) == entries_map(prefix, prefix.len() as int),
{
    lemma_entries_map_same(entries, prefix, prefix.len() as int);
}

/// Two lists that agree on the first `n` entries describe one table there.
proof fn lemma_entries_map_same<V>(a: Seq<(String, V)>, b: Seq<(String, V)>, n: int)
    requires
        0 <= n <= a.len(),
        n <= b.len(),
        forall|j: int| 0 <= j < n ==> #[trigger] a[j] == b[j],
    ensures
        entries_map(a, n) == entries_map(b, n),
    decreases n,
{
    if n > 0 {
        lemma_entries_map_same(a, b, n - 1);
        assert(a[n - 1] == b[n - 1]);
    }
}

/// The editor node that descriptor `d` refers to, through the mapping.
pub open spec fn param_node<V>(g: &UiGraph<V>, m: &NodeMapping, d: ExternalParameterDef) -> Option<int> {
    if d.node_id < m.to_ui@.len() && g.has_node_id(m.to_ui@[d.node_id as int]) {
        Some(g.node_pos(m.to_ui@[d.node_id as int]))
    } else {
        None
    }
}

/// Why descriptor `d` cannot be resolved, if it cannot.
pub open spec fn param_error<V>(g: &UiGraph<V>, m: &NodeMapping, d: ExternalParameterDef) -> Option<ParamError> {
    match param_node(g, m, d) {
        None => Some(ParamError::UnknownNode),
        Some(a) => if g.nodes@[a].input_named(d.param_name@) is None {
            Some(ParamError::UnknownInput)
        } else {
            None
        },
    }
}

/// The current value of the input that descriptor `d` resolves to.
pub open spec fn param_value<V>(g: &UiGraph<V>, m: &NodeMapping, d: ExternalParameterDef) -> V {
    let a = param_node(g, m, d)->Some_0;
    g.nodes@[a].inputs@[g.nodes@[a].input_named(d.param_name@)->Some_0].value
}

/// The error of the first of the first `n` descriptors that cannot be resolved.
pub open spec fn first_param_error<V>(g: &UiGraph<V>, m: &NodeMapping, defs: Seq<ExternalParameterDef>, n: int) -> Option<ParamError>
    decreases n,
{
    if n <= 0 {
        None
    } else {
        match first_param_error(g, m, defs, n - 1) {
            Some(e) => Some(e),
            None => param_error(g, m, defs[n - 1]),
        }
    }
}

/// The table that resolving the first `n` descriptors builds.
pub open spec fn params_of<V>(g: &UiGraph<V>, m: &NodeMapping, defs: Seq<ExternalParameterDef>, n: int) -> Map<Seq<char>, V>
    decreases n,
{
    if n <= 0 {
        Map::empty()
    } else {
        params_of(g, m, defs, n - 1).insert(defs[n - 1].addr@, param_value(g, m, defs[n - 1]))
    }
}

/// Once a descriptor has failed, the first failure stays the same.
proof fn lemma_first_param_error_persists<V>(g: &UiGraph<V>, m: &NodeMapping, defs: Seq<ExternalParameterDef>, n: int, k: int)
    requires
        0 <= n <= k,
        (first_param_error(g, m, defs, n) is Some),
    ensures
        first_param_error(g, m, defs, k) == first_param_error(g, m, defs, n),
    decreases k - n,
{
    if n < k {
        lemma_first_param_error_persists(g, m, defs, n, k - 1);
    }
}

/// Resolves each external parameter of `program` to the current value of the
/// editor input it names, keyed by its address; a later descriptor for an
/// address wins.
pub fn extract_graph_params<V: Copy>(graph: &UiGraph<V>, mapping: &NodeMapping, program: &CompiledProgram) -> (r: Result<ExternalParameterValues<V>, ParamError>)
    requires
        graph.wf(),
    ensures
        match first_param_error(graph, mapping, program.external_parameters@, program.external_parameters@.len() as int) {
            None => r is Ok && r->Ok_0.view_map() == params_of(graph, mapping, program.external_parameters@,
                program.external_parameters@.len() as int),
            Some(e) => r == Err::<ExternalParameterValues<V>, ParamError>(e),
        },
{
    let defs = &program.external_parameters;
    let mut params = ExternalParameterValues::new();
    let mut j: usize = 0;
    while j < defs.len()
        invariant
            graph.wf(),
            defs@ == program.external_parameters@,
            j <= defs@.len(),
            (first_param_error(graph, mapping, defs@, j as int) is None),
            params.view_map() == params_of(graph, mapping, defs@, j as int),
        decreases defs@.len() - j,
    {
        let d = &defs[j];
        let ghost dj = defs@[j as int];
        let node = match mapping.ui_id(d.node_id) {
            Some(u) => graph.node_index(u),
            None => None,
        };
        let a = match node {
            Some(a) => a,
            None => {
                proof {
                    assert(param_node(graph, mapping, dj) is None);
                    assert(first_param_error(graph, mapping, defs@, j + 1) == Some(ParamError::UnknownNode));
                    lemma_first_param_error_persists(graph, mapping, defs@, j + 1, defs@.len() as int);
                    assert(first_param_error(graph, mapping, program.external_parameters@,
                        program.external_parameters@.len() as int) == Some(ParamError::UnknownNode));
                }
                return Err(ParamError::UnknownNode);
            },
        };
        proof {
            assert(param_node(graph, mapping, dj) == Some(a as int));
        }
        let k = match graph.nodes[a].get_input(&d.param_name) {
            Some(k) => k,
            None => {
                proof {
                    assert(param_error(graph, mapping, dj) == Some(ParamError::UnknownInput));
                    assert(first_param_error(graph, mapping, defs@, j + 1) == Some(ParamError::UnknownInput));
                    lemma_first_param_error_persists(graph, mapping, defs@, j + 1, defs@.len() as int);
                    assert(first_param_error(graph, mapping, program.external_parameters@,
                        program.external_parameters@.len() as int) == Some(ParamError::UnknownInput));
                }
                return Err(ParamError::UnknownInput);
            },
        };
        proof {
            assert(param_error(graph, mapping, dj) is None);
            assert(param_value(graph, mapping, dj) == graph.nodes@[a as int].inputs@[k as int].value);
        }
        params.insert(d.addr.clone(), graph.nodes[a].inputs[k].value);
        j = j + 1;
    }
    Ok(params)
}

} // verus!
