use vstd::prelude::*;
use crate::bjk_graph::BjkGraph;
use crate::graph_error::GraphError;
use crate::interop::{translates, translation_error, ui_graph_to_blackjack_graph, NodeMapping};
use crate::params::{extract_graph_params, first_param_error, params_of, CompiledProgram, ExternalParameterValues, ParamError};
use crate::ui_graph::UiGraph;
use crate::viewport::{buffer_plan, plan_buffers, BufferRequest, RenderableThing, Viewport3dSettings};

verus! {

/// Why running a node failed.
#[derive(Debug)]
pub enum AppError {
    /// The editor graph does not translate, or the node is not in it.
    Graph(GraphError),
    /// The program compiler refused the graph.
    Compile(String),
    /// An external parameter does not resolve against the editor graph.
    Parameter(ParamError),
    /// The program failed while running.
    Runtime(String),
}

/// What the editor asks of the application: the node to preview, and a node
/// to run once for its side effects.
pub struct CustomGraphState {
    pub active_node: Option<u64>,
    pub run_side_effect: Option<u64>,
}

/// An action for the application's root to carry out.
pub enum AppRootAction {
    SetCodeViewerCode(String),
}

/// What one cycle decided: actions for the root, the error to show over the
/// viewport, the error to report on the diagnostic channel, and the buffer
/// sets to draw.
pub struct UpdateOutcome {
    pub actions: Vec<AppRootAction>,
    pub overlay_error: Option<AppError>,
    pub side_effect_error: Option<AppError>,
    pub buffers: Vec<BufferRequest>,
}

/// Why `node` of `graph` cannot be handed to the compiler, if it cannot: the
/// translation fails, or the node is not in the graph.
pub open spec fn graph_failure<V>(graph: &UiGraph<V>, node: u64) -> Option<GraphError> {
    match translation_error(graph) {
        Some(e) => Some(e),
        None => if graph.has_node_id(node) {
            None
        } else {
            Some(GraphError::UnknownNode)
        },
    }
}

/// `bjk` and `m` are a translation of `graph` in which `node` can be compiled.
pub open spec fn handed_over<V>(graph: &UiGraph<V>, node: u64, bjk: BjkGraph, m: NodeMapping) -> bool {
    &&& graph_failure(graph, node) is None
    &&& translates(graph, &bjk, &m)
    &&& m.to_bjk@.contains_key(node)
}

/// `program` and `params` are what compiling `graph` at `node` gives: the
/// compiler's answer on a translation of the graph, with every external
/// parameter resolved.
pub open spec fn compiled_from<V, CF>(graph: &UiGraph<V>, node: u64, is_side_effect: bool, compile: CF, program: CompiledProgram, params: ExternalParameterValues<V>) -> bool
    where
        CF: Fn(&BjkGraph, usize, bool) -> Result<CompiledProgram, String>,
{
    exists|bjk: BjkGraph, m: NodeMapping|
        #[trigger] handed_over(graph, node, bjk, m)
            && call_ensures(compile, (&bjk, m.to_bjk@[node], is_side_effect), Ok::<CompiledProgram, String>(program))
            && (first_param_error(graph, &m, program.external_parameters@, program.external_parameters@.len() as int) is None)
            && params.view_map() == params_of(graph, &m, program.external_parameters@, program.external_parameters@.len() as int)
}

/// A node that compiles is one that the graph hands over.
pub proof fn lemma_compiled_node_handed_over<V, CF>(graph: &UiGraph<V>, node: u64, is_side_effect: bool, compile: CF, program: CompiledProgram, params: ExternalParameterValues<V>)
    where
        CF: Fn(&BjkGraph, usize, bool) -> Result<CompiledProgram, String>,
    requires
        compiled_from(graph, node, is_side_effect, compile, program, params),
    ensures
        graph_failure(graph, node) is None,
{
    let (bjk, m) = choose|bjk: BjkGraph, m: NodeMapping|
        #[trigger] handed_over(graph, node, bjk, m)
            && call_ensures(compile, (&bjk, m.to_bjk@[node], is_side_effect), Ok::<CompiledProgram, String>(program))
            && (first_param_error(graph, &m, program.external_parameters@, program.external_parameters@.len() as int) is None)
            && params.view_map() == params_of(graph, &m, program.external_parameters@, program.external_parameters@.len() as int);
    assert(handed_over(graph, node, bjk, m));
}

/// `e` is what compiling `graph` at `node` can fail with: the graph's own
/// failure, the compiler's refusal of a translation, or the first parameter
/// that does not resolve against what the compiler gave.
pub open spec fn compile_failure<V, CF>(graph: &UiGraph<V>, node: u64, is_side_effect: bool, compile: CF, e: AppError) -> bool
    where
        CF: Fn(&BjkGraph, usize, bool) -> Result<CompiledProgram, String>,
{
    match e {
        AppError::Graph(x) => graph_failure(graph, node) == Some(x),
        AppError::Compile(msg) => exists|bjk: BjkGraph, m: NodeMapping|
            #[trigger] handed_over(graph, node, bjk, m)
                && call_ensures(compile, (&bjk, m.to_bjk@[node], is_side_effect), Err::<CompiledProgram, String>(msg)),
        AppError::Parameter(x) => exists|bjk: BjkGraph, m: NodeMapping, p: CompiledProgram|
            #[trigger] handed_over(graph, node, bjk, m)
                && #[trigger] call_ensures(compile, (&bjk, m.to_bjk@[node], is_side_effect), Ok::<CompiledProgram, String>(p))
                && first_param_error(graph, &m, p.external_parameters@, p.external_parameters@.len() as int) == Some(x),
        AppError::Runtime(_) => false,
    }
}

/// `e` is what compiling `graph` at `node` and running the program with `run`
/// can fail with.
pub open spec fn run_error<V, CF, RF, T>(graph: &UiGraph<V>, node: u64, is_side_effect: bool, compile: CF, run: RF, e: AppError) -> bool
    where
        CF: Fn(&BjkGraph, usize, bool) -> Result<CompiledProgram, String>,
        RF: Fn(&CompiledProgram, &ExternalParameterValues<V>) -> Result<T, String>,
{
    match e {
        AppError::Runtime(msg) => exists|p: CompiledProgram, v: ExternalParameterValues<V>|
            #[trigger] compiled_from(graph, node, is_side_effect, compile, p, v)
                && call_ensures(run, (&p, &v), Err::<T, String>(msg)),
        _ => compile_failure(graph, node, is_side_effect, compile, e),
    }
}

/// Compiling `graph` at `node` gives a program, and running it with `run`
/// gives `out`.
pub open spec fn run_succeeds<V, CF, RF, T>(graph: &UiGraph<V>, node: u64, is_side_effect: bool, compile: CF, run: RF, out: T) -> bool
    where
        CF: Fn(&BjkGraph, usize, bool) -> Result<CompiledProgram, String>,
        RF: Fn(&CompiledProgram, &ExternalParameterValues<V>) -> Result<T, String>,
{
    exists|p: CompiledProgram, v: ExternalParameterValues<V>|
        #[trigger] compiled_from(graph, node, is_side_effect, compile, p, v)
            && call_ensures(run, (&p, &v), Ok::<T, String>(out))
}

/// Compiling `graph` at `node` gives a program whose text is `code`, and
/// running it with `run` gives `out`.
pub open spec fn run_gives<V, CF, RF, T>(graph: &UiGraph<V>, node: u64, is_side_effect: bool, compile: CF, run: RF, code: String, out: T) -> bool
    where
        CF: Fn(&BjkGraph, usize, bool) -> Result<CompiledProgram, String>,
        RF: Fn(&CompiledProgram, &ExternalParameterValues<V>) -> Result<T, String>,
{
    exists|p: CompiledProgram, v: ExternalParameterValues<V>|
        #[trigger] compiled_from(graph, node, is_side_effect, compile, p, v)
            && call_ensures(run, (&p, &v), Ok::<T, String>(out))
            && code == p.lua_program
}

/// The application state: the artifact that the active node last produced.
pub struct ApplicationContext<M, H> {
    pub renderable_thing: Option<RenderableThing<M, H>>,
}

impl<M, H> ApplicationContext<M, H> {
    pub fn new() -> (r: Self)
        ensures
            r.renderable_thing is None,
    {
        ApplicationContext { renderable_thing: None }
    }

    /// Translates `graph`, compiles the program rooted at `node` with `compile`,
    /// and resolves its external parameters.
    pub fn compile_program<V: Copy, CF>(&self, graph: &UiGraph<V>, node: u64, is_side_effect: bool, compile: &CF) -> (r: Result<(CompiledProgram, ExternalParameterValues<V>), AppError>)
        where
            CF: Fn(&BjkGraph, usize, bool) -> Result<CompiledProgram, String>,
        requires
            graph.wf(),
            forall|b: &BjkGraph, n: usize, s: bool| compile.requires((b, n, s)),
        ensures
            graph_failure(graph, node) matches Some(x)
                ==> r == Err::<(CompiledProgram, ExternalParameterValues<V>), AppError>(AppError::Graph(x)),
            match r {
                Ok((p, v)) => compiled_from(graph, node, is_side_effect, *compile, p, v),
                Err(e) => compile_failure(graph, node, is_side_effect, *compile, e),
            },
    {
        let (bjk, mapping) = match ui_graph_to_blackjack_graph(graph) {
            Ok(t) => t,
            Err(e) => {
                return Err(AppError::Graph(e));
            },
        };
        proof {
            crate::interop::lemma_translation_counts(graph, &bjk, &mapping);
        }
        let root = match mapping.bjk_id(node) {
            Some(b) => b,
            None => {
                return Err(AppError::Graph(GraphError::UnknownNode));
            },
        };
        let compiled = compile(&bjk, root, is_side_effect);
        let program = match compiled {
            Ok(p) => p,
            Err(msg) => {
                proof {
                    assert(handed_over(graph, node, bjk, mapping));
                }
                return Err(AppError::Compile(msg));
            },
        };
        let params = match extract_graph_params(graph, &mapping, &program) {
            Ok(v) => v,
            Err(e) => {
                proof {
                    assert(handed_over(graph, node, bjk, mapping));
                    assert(call_ensures(*compile, (&bjk, mapping.to_bjk@[node], is_side_effect), Ok::<CompiledProgram, String>(program)));
                }
                return Err(AppError::Parameter(e));
            },
        };
        proof {
            assert(handed_over(graph, node, bjk, mapping));
        }
        Ok((program, params))
    }

    /// Compiles and runs the active node. On success the artifact is replaced
    /// and the program text returned; on failure the artifact is kept. With no
    /// active node the artifact is cleared.
    pub fn run_active_node<V: Copy, CF, RF>(&mut self, graph: &UiGraph<V>, custom_state: &CustomGraphState, compile: &CF, run: &RF) -> (r: Result<String, AppError>)
        where
            CF: Fn(&BjkGraph, usize, bool) -> Result<CompiledProgram, String>,
            RF: Fn(&CompiledProgram, &ExternalParameterValues<V>) -> Result<RenderableThing<M, H>, String>,
        requires
            graph.wf(),
            forall|b: &BjkGraph, n: usize, s: bool| compile.requires((b, n, s)),
            forall|p: &CompiledProgram, v: &ExternalParameterValues<V>| run.requires((p, v)),
        ensures
            custom_state.active_node is None ==> (final(self).renderable_thing is None)
                && (r matches Ok(code) && code@.len() == 0),
            custom_state.active_node matches Some(a) ==> match r {
                Ok(code) => (final(self).renderable_thing is Some)
                    && run_gives(graph, a, false, *compile, *run, code, final(self).renderable_thing->Some_0),
                Err(e) => final(self).renderable_thing == old(self).renderable_thing
                    && run_error(graph, a, false, *compile, *run, e),
            },
            (custom_state.active_node is Some) && (graph_failure(graph, custom_state.active_node->Some_0) is Some)
                ==> r == Err::<String, AppError>(AppError::Graph(graph_failure(graph, custom_state.active_node->Some_0)->Some_0)),
    {
        match custom_state.active_node {
            Some(active) => {
                let compiled = self.compile_program(graph, active, false, compile);
                let (program, params) = match compiled {
                    Ok(t) => t,
                    Err(e) => {
                        return Err(e);
                    },
                };
                let ran = run(&program, &params);
                let thing = match ran {
                    Ok(t) => t,
                    Err(msg) => {
                        proof {
                            assert(compiled_from(graph, active, false, *compile, program, params));
                            lemma_compiled_node_handed_over(graph, active, false, *compile, program, params);
                        }
                        return Err(AppError::Runtime(msg));
                    },
                };
                proof {
                    assert(compiled_from(graph, active, false, *compile, program, params));
                    lemma_compiled_node_handed_over(graph, active, false, *compile, program, params);
                }
                self.renderable_thing = Some(thing);
                Ok(program.lua_program)
            },
            None => {
                self.renderable_thing = None;
                Ok(String::new())
            },
        }
    }

    /// Takes the pending side-effect request, if any, and runs it once for
    /// its effects; the slot is empty afterwards whatever the outcome.
    pub fn run_side_effects<V: Copy, CF, SF>(&self, graph: &UiGraph<V>, custom_state: &mut CustomGraphState, compile: &CF, run: &SF) -> (r: Result<(), AppError>)
        where
            CF: Fn(&BjkGraph, usize, bool) -> Result<CompiledProgram, String>,
            SF: Fn(&CompiledProgram, &ExternalParameterValues<V>) -> Result<(), String>,
        requires
            graph.wf(),
            forall|b: &BjkGraph, n: usize, s: bool| compile.requires((b, n, s)),
            forall|p: &CompiledProgram, v: &ExternalParameterValues<V>| run.requires((p, v)),
        ensures
            final(custom_state).run_side_effect is None,
            final(custom_state).active_node == old(custom_state).active_node,
            old(custom_state).run_side_effect is None ==> r is Ok,
            old(custom_state).run_side_effect matches Some(n) ==> match r {
                Ok(u) => run_succeeds(graph, n, true, *compile, *run, u),
                Err(e) => run_error(graph, n, true, *compile, *run, e),
            },
            (old(custom_state).run_side_effect is Some) && (graph_failure(graph, old(custom_state).run_side_effect->Some_0) is Some)
                ==> r == Err::<(), AppError>(AppError::Graph(graph_failure(graph, old(custom_state).run_side_effect->Some_0)->Some_0)),
    {
        let pending = custom_state.run_side_effect.take();
        match pending {
            Some(node) => {
                let compiled = self.compile_program(graph, node, true, compile);
                let (program, params) = match compiled {
                    Ok(t) => t,
                    Err(e) => {
                        return Err(e);
                    },
                };
                let res = run(&program, &params);
                match res {
                    Ok(u) => {
                        proof {
                            assert(compiled_from(graph, node, true, *compile, program, params));
                            lemma_compiled_node_handed_over(graph, node, true, *compile, program, params);
                        }
                        Ok(())
                    },
                    Err(msg) => {
                        proof {
                            assert(compiled_from(graph, node, true, *compile, program, params));
                            lemma_compiled_node_handed_over(graph, node, true, *compile, program, params);
                        }
                        Err(AppError::Runtime(msg))
                    },
                }
            },
            None => Ok(()),
        }
    }

    /// The buffer sets to draw for the held artifact.
    pub fn build_and_render_mesh(&self, viewport_settings: &Viewport3dSettings) -> (r: Vec<BufferRequest>)
        ensures
            r@ == buffer_plan(self.renderable_thing, *viewport_settings),
    {
        plan_buffers(&self.renderable_thing, viewport_settings)
    }

    /// One cycle: runs the active node, then the pending side effect, then
    /// plans the drawing of whatever artifact is held.
    pub fn update<V: Copy, CF, RF, SF>(&mut self, graph: &UiGraph<V>, custom_state: &mut CustomGraphState, viewport_settings: &Viewport3dSettings, compile: &CF, run: &RF, run_side_effect: &SF) -> (r: UpdateOutcome)
        where
            CF: Fn(&BjkGraph, usize, bool) -> Result<CompiledProgram, String>,
            RF: Fn(&CompiledProgram, &ExternalParameterValues<V>) -> Result<RenderableThing<M, H>, String>,
            SF: Fn(&CompiledProgram, &ExternalParameterValues<V>) -> Result<(), String>,
        requires
            graph.wf(),
            forall|b: &BjkGraph, n: usize, s: bool| compile.requires((b, n, s)),
            forall|p: &CompiledProgram, v: &ExternalParameterValues<V>| run.requires((p, v)),
            forall|p: &CompiledProgram, v: &ExternalParameterValues<V>| run_side_effect.requires((p, v)),
        ensures
            old(custom_state).active_node is None ==> (final(self).renderable_thing is None)
                && (r.overlay_error is None) && r.actions@.len() == 1
                && (r.actions@[0] matches AppRootAction::SetCodeViewerCode(code) && code@.len() == 0),
            old(custom_state).active_node matches Some(a) ==> match r.overlay_error {
                None => (final(self).renderable_thing is Some) && r.actions@.len() == 1
                    && (r.actions@[0] matches AppRootAction::SetCodeViewerCode(code)
                        && run_gives(graph, a, false, *compile, *run, code, final(self).renderable_thing->Some_0)),
                Some(e) => final(self).renderable_thing == old(self).renderable_thing && r.actions@.len() == 0
                    && run_error(graph, a, false, *compile, *run, e),
            },
            (old(custom_state).active_node is Some) && (graph_failure(graph, old(custom_state).active_node->Some_0) is Some)
                ==> r.overlay_error == Some(AppError::Graph(graph_failure(graph, old(custom_state).active_node->Some_0)->Some_0)),
            final(custom_state).run_side_effect is None,
            final(custom_state).active_node == old(custom_state).active_node,
            old(custom_state).run_side_effect is None ==> (r.side_effect_error is None),
            old(custom_state).run_side_effect matches Some(n) ==> match r.side_effect_error {
                None => run_succeeds(graph, n, true, *compile, *run_side_effect, ()),
                Some(e) => run_error(graph, n, true, *compile, *run_side_effect, e),
            },
            (old(custom_state).run_side_effect is Some) && (graph_failure(graph, old(custom_state).run_side_effect->Some_0) is Some)
                ==> r.side_effect_error == Some(AppError::Graph(graph_failure(graph, old(custom_state).run_side_effect->Some_0)->Some_0)),
            r.buffers@ == buffer_plan(final(self).renderable_thing, *viewport_settings),
    {
        let mut actions: Vec<AppRootAction> = Vec::new();
        let overlay_error = match self.run_active_node(graph, custom_state, compile, run) {
            Ok(code) => {
                actions.push(AppRootAction::SetCodeViewerCode(code));
                None
            },
            Err(e) => Some(e),
        };
        let side_effect_error = match self.run_side_effects(graph, custom_state, compile, run_side_effect) {
            Ok(u) => {
                proof {
                    if let Some(n) = old(custom_state).run_side_effect {
                        assert(u == ());
                        assert(run_succeeds(graph, n, true, *compile, *run_side_effect, u));
                    }
                }
                None
            },
            Err(e) => Some(e),
        };
        let buffers = self.build_and_render_mesh(viewport_settings);
        UpdateOutcome { actions, overlay_error, side_effect_error, buffers }
    }
}

impl<M, H> Default for ApplicationContext<M, H> {
    fn default() -> (r: Self)
        ensures
            r.renderable_thing is None,
    {
        Self::new()
    }
}

} // verus!
