use blackjack_ui::application_context::{AppError, AppRootAction, ApplicationContext, CustomGraphState};
use blackjack_ui::bjk_graph::BjkGraph;
use blackjack_ui::graph_error::GraphError;
use blackjack_ui::interop::ui_graph_to_blackjack_graph;
use blackjack_ui::params::{extract_graph_params, CompiledProgram, ExternalParameterDef, ExternalParameterValues, ParamError};
use blackjack_ui::ui_graph::{DataType, UiGraph, UiInput, UiNode, UiOutput};
use blackjack_ui::viewport::{
    should_upload, BufferRequest, EdgeDrawMode, FaceDrawMode, RenderableThing, Viewport3dSettings,
};

fn cube_graph(size: f32) -> UiGraph<f32> {
    let cube = UiNode {
        id: 42,
        op_name: "cube".to_string(),
        return_type: Some("out_mesh".to_string()),
        inputs: vec![UiInput { id: 1, name: "size".to_string(), typ: DataType::Scalar, value: size }],
        outputs: vec![UiOutput { id: 2, name: "out_mesh".to_string(), typ: DataType::Mesh }],
    };
    UiGraph { nodes: vec![cube], connections: vec![] }
}

fn def(node_id: usize, param: &str, addr: &str) -> ExternalParameterDef {
    ExternalParameterDef { node_id, param_name: param.to_string(), addr: addr.to_string() }
}

fn program_with(defs: Vec<ExternalParameterDef>) -> CompiledProgram {
    CompiledProgram { lua_program: "return cube(size)".to_string(), external_parameters: defs }
}

fn compile_ok(_g: &BjkGraph, root: usize, _side: bool) -> Result<CompiledProgram, String> {
    Ok(program_with(vec![def(root, "size", "p0")]))
}

fn compile_fails(_g: &BjkGraph, _root: usize, _side: bool) -> Result<CompiledProgram, String> {
    Err("cycle".to_string())
}

fn run_ok(_p: &CompiledProgram, v: &ExternalParameterValues<f32>) -> Result<RenderableThing<f32, ()>, String> {
    let size = v.get(&"p0".to_string()).unwrap_or(0.0);
    Ok(RenderableThing::HalfEdgeMesh { mesh: size, smooth_normals: true })
}

fn run_fails(_p: &CompiledProgram, _v: &ExternalParameterValues<f32>) -> Result<RenderableThing<f32, ()>, String> {
    Err("script error".to_string())
}

fn effect_ok(_p: &CompiledProgram, _v: &ExternalParameterValues<f32>) -> Result<(), String> {
    Ok(())
}

fn effect_fails(_p: &CompiledProgram, _v: &ExternalParameterValues<f32>) -> Result<(), String> {
    Err("write failed".to_string())
}

fn settings(face_mode: FaceDrawMode, edge_mode: EdgeDrawMode) -> Viewport3dSettings {
    Viewport3dSettings { face_mode, edge_mode }
}

fn held_size(ctx: &ApplicationContext<f32, ()>) -> Option<f32> {
    match &ctx.renderable_thing {
        Some(RenderableThing::HalfEdgeMesh { mesh, .. }) => Some(*mesh),
        _ => None,
    }
}

#[test]
fn extraction_reads_widget_value() {
    let g = cube_graph(2.5);
    let (_, m) = ui_graph_to_blackjack_graph(&g).unwrap();
    let p = program_with(vec![def(0, "size", "p0")]);
    let values = extract_graph_params(&g, &m, &p).unwrap();
    assert_eq!(values.get(&"p0".to_string()), Some(2.5));
    assert_eq!(values.get(&"p1".to_string()), None);
}

#[test]
fn extraction_later_descriptor_wins() {
    let mut g = cube_graph(2.5);
    g.nodes[0].inputs.push(UiInput { id: 3, name: "height".to_string(), typ: DataType::Scalar, value: 4.0 });
    let (_, m) = ui_graph_to_blackjack_graph(&g).unwrap();
    let p = program_with(vec![def(0, "size", "p0"), def(0, "height", "p0")]);
    let values = extract_graph_params(&g, &m, &p).unwrap();
    assert_eq!(values.get(&"p0".to_string()), Some(4.0));
}

#[test]
fn extraction_unknown_node_fails() {
    let g = cube_graph(2.5);
    let (_, m) = ui_graph_to_blackjack_graph(&g).unwrap();
    let p = program_with(vec![def(3, "size", "p0")]);
    assert!(matches!(extract_graph_params(&g, &m, &p), Err(ParamError::UnknownNode)));
}

#[test]
fn extraction_unknown_input_fails() {
    let g = cube_graph(2.5);
    let (_, m) = ui_graph_to_blackjack_graph(&g).unwrap();
    let p = program_with(vec![def(0, "radius", "p0")]);
    assert!(matches!(extract_graph_params(&g, &m, &p), Err(ParamError::UnknownInput)));
}

#[test]
fn compile_program_resolves_parameters() {
    let g = cube_graph(3.0);
    let (p, v) = ApplicationContext::<f32, ()>::new().compile_program(&g, 42, false, &compile_ok).unwrap();
    assert_eq!(p.lua_program, "return cube(size)");
    assert_eq!(v.get(&"p0".to_string()), Some(3.0));
}

#[test]
fn compile_program_unknown_node() {
    let g = cube_graph(3.0);
    let r = ApplicationContext::<f32, ()>::new().compile_program(&g, 9, false, &compile_ok);
    assert!(matches!(r, Err(AppError::Graph(GraphError::UnknownNode))));
}

#[test]
fn compile_program_reports_compiler_error() {
    let g = cube_graph(3.0);
    let r = ApplicationContext::<f32, ()>::new().compile_program(&g, 42, false, &compile_fails);
    assert!(matches!(r, Err(AppError::Compile(ref m)) if m == "cycle"));
}

#[test]
fn update_success_replaces_artifact_and_shows_code() {
    let g = cube_graph(3.0);
    let mut ctx: ApplicationContext<f32, ()> = ApplicationContext::new();
    let mut state = CustomGraphState { active_node: Some(42), run_side_effect: None };
    let s = settings(FaceDrawMode::Real, EdgeDrawMode::FullEdge);
    let out = ctx.update(&g, &mut state, &s, &compile_ok, &run_ok, &effect_ok);
    assert!(out.overlay_error.is_none());
    assert_eq!(out.actions.len(), 1);
    match &out.actions[0] {
        AppRootAction::SetCodeViewerCode(code) => assert_eq!(code, "return cube(size)"),
    }
    assert_eq!(held_size(&ctx), Some(3.0));
    assert_eq!(
        out.buffers,
        vec![
            BufferRequest::MeshTriangles { smooth: true, debug: false },
            BufferRequest::FaceOverlay,
            BufferRequest::EdgeLines,
            BufferRequest::Points,
        ]
    );
}

#[test]
fn update_failure_keeps_previous_artifact() {
    let mut ctx: ApplicationContext<f32, ()> = ApplicationContext::new();
    let mut state = CustomGraphState { active_node: Some(42), run_side_effect: None };
    let s = settings(FaceDrawMode::Flat, EdgeDrawMode::HalfEdge);
    ctx.update(&cube_graph(3.0), &mut state, &s, &compile_ok, &run_ok, &effect_ok);
    let out = ctx.update(&cube_graph(5.0), &mut state, &s, &compile_ok, &run_fails, &effect_ok);
    assert!(matches!(out.overlay_error, Some(AppError::Runtime(_))));
    assert_eq!(out.actions.len(), 0);
    assert_eq!(held_size(&ctx), Some(3.0));
    assert_eq!(
        out.buffers,
        vec![
            BufferRequest::MeshTriangles { smooth: false, debug: true },
            BufferRequest::FaceOverlay,
            BufferRequest::HalfEdgeArrows,
            BufferRequest::Points,
        ]
    );
}

#[test]
fn update_compile_failure_keeps_previous_artifact() {
    let mut ctx: ApplicationContext<f32, ()> = ApplicationContext::new();
    let mut state = CustomGraphState { active_node: Some(42), run_side_effect: None };
    let s = settings(FaceDrawMode::Real, EdgeDrawMode::Off);
    ctx.update(&cube_graph(3.0), &mut state, &s, &compile_ok, &run_ok, &effect_ok);
    let out = ctx.update(&cube_graph(5.0), &mut state, &s, &compile_fails, &run_ok, &effect_ok);
    assert!(matches!(out.overlay_error, Some(AppError::Compile(_))));
    assert_eq!(held_size(&ctx), Some(3.0));
}

#[test]
fn update_without_active_node_clears_artifact() {
    let mut ctx: ApplicationContext<f32, ()> = ApplicationContext::new();
    let mut state = CustomGraphState { active_node: Some(42), run_side_effect: None };
    let s = settings(FaceDrawMode::Real, EdgeDrawMode::Off);
    ctx.update(&cube_graph(3.0), &mut state, &s, &compile_ok, &run_ok, &effect_ok);
    assert!(ctx.renderable_thing.is_some());
    state.active_node = None;
    let out = ctx.update(&cube_graph(3.0), &mut state, &s, &compile_ok, &run_ok, &effect_ok);
    assert!(ctx.renderable_thing.is_none());
    assert!(out.overlay_error.is_none());
    match &out.actions[0] {
        AppRootAction::SetCodeViewerCode(code) => assert_eq!(code, ""),
    }
    assert!(out.buffers.is_empty());
}

#[test]
fn side_effect_slot_cleared_after_failure() {
    let mut ctx: ApplicationContext<f32, ()> = ApplicationContext::new();
    let mut state = CustomGraphState { active_node: None, run_side_effect: Some(42) };
    let s = settings(FaceDrawMode::Real, EdgeDrawMode::Off);
    let out = ctx.update(&cube_graph(1.0), &mut state, &s, &compile_ok, &run_ok, &effect_fails);
    assert!(state.run_side_effect.is_none());
    assert!(matches!(out.side_effect_error, Some(AppError::Runtime(ref m)) if m == "write failed"));
    assert!(out.overlay_error.is_none());
}

#[test]
fn side_effect_slot_cleared_after_success() {
    let mut ctx: ApplicationContext<f32, ()> = ApplicationContext::new();
    let mut state = CustomGraphState { active_node: None, run_side_effect: Some(42) };
    let s = settings(FaceDrawMode::Real, EdgeDrawMode::Off);
    let out = ctx.update(&cube_graph(1.0), &mut state, &s, &compile_ok, &run_ok, &effect_ok);
    assert!(state.run_side_effect.is_none());
    assert!(out.side_effect_error.is_none());
}

#[test]
fn side_effect_for_missing_node_is_reported_and_cleared() {
    let mut ctx: ApplicationContext<f32, ()> = ApplicationContext::new();
    let mut state = CustomGraphState { active_node: None, run_side_effect: Some(9) };
    let s = settings(FaceDrawMode::Real, EdgeDrawMode::Off);
    let out = ctx.update(&cube_graph(1.0), &mut state, &s, &compile_ok, &run_ok, &effect_ok);
    assert!(state.run_side_effect.is_none());
    assert!(matches!(out.side_effect_error, Some(AppError::Graph(GraphError::UnknownNode))));
}

#[test]
fn mesh_without_faces_or_edges_draws_overlay_and_points() {
    let ctx: ApplicationContext<f32, ()> = ApplicationContext {
        renderable_thing: Some(RenderableThing::HalfEdgeMesh { mesh: 1.0, smooth_normals: false }),
    };
    let plan = ctx.build_and_render_mesh(&settings(FaceDrawMode::Off, EdgeDrawMode::Off));
    assert_eq!(plan, vec![BufferRequest::FaceOverlay, BufferRequest::Points]);
}

#[test]
fn real_faces_follow_mesh_normals() {
    let ctx: ApplicationContext<f32, ()> = ApplicationContext {
        renderable_thing: Some(RenderableThing::HalfEdgeMesh { mesh: 1.0, smooth_normals: false }),
    };
    let plan = ctx.build_and_render_mesh(&settings(FaceDrawMode::Real, EdgeDrawMode::Off));
    assert_eq!(plan[0], BufferRequest::MeshTriangles { smooth: false, debug: false });
    let plan = ctx.build_and_render_mesh(&settings(FaceDrawMode::Smooth, EdgeDrawMode::Off));
    assert_eq!(plan[0], BufferRequest::MeshTriangles { smooth: true, debug: true });
}

#[test]
fn height_map_draws_one_triangle_set() {
    let ctx: ApplicationContext<f32, u8> = ApplicationContext { renderable_thing: Some(RenderableThing::HeightMap(3)) };
    let plan = ctx.build_and_render_mesh(&settings(FaceDrawMode::Off, EdgeDrawMode::HalfEdge));
    assert_eq!(plan, vec![BufferRequest::HeightMapTriangles]);
}

#[test]
fn nothing_held_draws_nothing() {
    let ctx: ApplicationContext<f32, ()> = ApplicationContext::new();
    let plan = ctx.build_and_render_mesh(&settings(FaceDrawMode::Real, EdgeDrawMode::FullEdge));
    assert!(plan.is_empty());
}

#[test]
fn empty_buffers_are_not_uploaded() {
    let empty: Vec<[f32; 3]> = vec![];
    assert!(!should_upload(&empty));
    assert!(should_upload(&vec![[0.0f32, 1.0, 2.0]]));
}

#[test]
fn default_context_holds_nothing() {
    let ctx: ApplicationContext<f32, ()> = ApplicationContext::default();
    assert!(ctx.renderable_thing.is_none());
}

#[test]
fn side_effect_failure_does_not_touch_active_result() {
    let mut ctx: ApplicationContext<f32, ()> = ApplicationContext::new();
    let mut state = CustomGraphState { active_node: Some(42), run_side_effect: Some(42) };
    let s = settings(FaceDrawMode::Off, EdgeDrawMode::Off);
    let out = ctx.update(&cube_graph(6.0), &mut state, &s, &compile_ok, &run_ok, &effect_fails);
    assert!(out.overlay_error.is_none());
    assert_eq!(out.actions.len(), 1);
    assert_eq!(held_size(&ctx), Some(6.0));
    assert!(matches!(out.side_effect_error, Some(AppError::Runtime(_))));
    assert!(state.run_side_effect.is_none());
    assert_eq!(state.active_node, Some(42));
}

#[test]
fn active_node_missing_from_graph_is_a_graph_error() {
    let mut ctx: ApplicationContext<f32, ()> = ApplicationContext::new();
    let mut state = CustomGraphState { active_node: Some(42), run_side_effect: None };
    let s = settings(FaceDrawMode::Off, EdgeDrawMode::Off);
    ctx.update(&cube_graph(6.0), &mut state, &s, &compile_ok, &run_ok, &effect_ok);
    state.active_node = Some(5);
    let out = ctx.update(&cube_graph(7.0), &mut state, &s, &compile_ok, &run_ok, &effect_ok);
    assert!(matches!(out.overlay_error, Some(AppError::Graph(GraphError::UnknownNode))));
    assert_eq!(held_size(&ctx), Some(6.0));
}
