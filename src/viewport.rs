use vstd::prelude::*;

verus! {

/// How faces are drawn.
#[derive(Clone, Copy, Debug, PartialEq, Eq, Structural)]
pub enum FaceDrawMode {
    /// The actual surface, with the normals that the mesh asks for.
    Real,
    /// Flat normals, for debugging.
    Flat,
    /// Smooth normals, for debugging.
    Smooth,
    Off,
}

/// How edges are drawn.
#[derive(Clone, Copy, Debug, PartialEq, Eq, Structural)]
pub enum EdgeDrawMode {
    HalfEdge,
    FullEdge,
    Off,
}

/// The draw settings of the 3d viewport.
#[derive(Clone, Copy, Debug, PartialEq, Eq, Structural)]
pub struct Viewport3dSettings {
    pub face_mode: FaceDrawMode,
    pub edge_mode: EdgeDrawMode,
}

/// What a program run produces. The geometry itself is opaque here; a mesh
/// carries the one setting the buffer choice reads.
pub enum RenderableThing<M, H> {
    HalfEdgeMesh { mesh: M, smooth_normals: bool },
    HeightMap(H),
}

/// One set of buffers to generate from the held artifact and hand to the
/// renderer.
#[derive(Clone, Copy, Debug, PartialEq, Eq, Structural)]
pub enum BufferRequest {
    /// Triangle buffers of the mesh, with smooth or flat normals; `debug` marks
    /// the forced debug styles.
    MeshTriangles { smooth: bool, debug: bool },
    /// Per-face colour highlights.
    FaceOverlay,
    /// One arrow per half-edge.
    HalfEdgeArrows,
    /// One straight line per edge.
    EdgeLines,
    /// One point per vertex.
    Points,
    /// Triangle buffers of the height map.
    HeightMapTriangles,
}

/// The triangle buffers that `face_mode` selects for a mesh.
pub open spec fn triangle_request(face_mode: FaceDrawMode, smooth_normals: bool) -> Seq<BufferRequest> {
    match face_mode {
        FaceDrawMode::Real => seq![BufferRequest::MeshTriangles { smooth: smooth_normals, debug: false }],
        FaceDrawMode::Flat => seq![BufferRequest::MeshTriangles { smooth: false, debug: true }],
        FaceDrawMode::Smooth => seq![BufferRequest::MeshTriangles { smooth: true, debug: true }],
        FaceDrawMode::Off => Seq::empty(),
    }
}

/// The line buffers that `edge_mode` selects for a mesh.
pub open spec fn line_request(edge_mode: EdgeDrawMode) -> Seq<BufferRequest> {
    match edge_mode {
        EdgeDrawMode::HalfEdge => seq![BufferRequest::HalfEdgeArrows],
        EdgeDrawMode::FullEdge => seq![BufferRequest::EdgeLines],
        EdgeDrawMode::Off => Seq::empty(),
    }
}

/// The buffer sets drawn for `thing` under `settings`, in drawing order.
pub open spec fn buffer_plan<M, H>(thing: Option<RenderableThing<M, H>>, settings: Viewport3dSettings) -> Seq<BufferRequest> {
    match thing {
        Some(RenderableThing::HalfEdgeMesh { smooth_normals, .. }) =>
            triangle_request(settings.face_mode, smooth_normals)
                + seq![BufferRequest::FaceOverlay]
                + line_request(settings.edge_mode)
                + seq![BufferRequest::Points],
        Some(RenderableThing::HeightMap(_)) => seq![BufferRequest::HeightMapTriangles],
        None => Seq::empty(),
    }
}

/// The buffer sets to draw for `thing` under `settings`.
pub fn plan_buffers<M, H>(thing: &Option<RenderableThing<M, H>>, settings: &Viewport3dSettings) -> (r: Vec<BufferRequest>)
    ensures
        r@ == buffer_plan(*thing, *settings),
{
    let mut r: Vec<BufferRequest> = Vec::new();
    match thing {
        Some(RenderableThing::HalfEdgeMesh { smooth_normals, .. }) => {
            match settings.face_mode {
                FaceDrawMode::Real => r.push(BufferRequest::MeshTriangles { smooth: *smooth_normals, debug: false }),
                FaceDrawMode::Flat => r.push(BufferRequest::MeshTriangles { smooth: false, debug: true }),
                FaceDrawMode::Smooth => r.push(BufferRequest::MeshTriangles { smooth: true, debug: true }),
                FaceDrawMode::Off => {},
            }
            r.push(BufferRequest::FaceOverlay);
            match settings.edge_mode {
                EdgeDrawMode::HalfEdge => r.push(BufferRequest::HalfEdgeArrows),
                EdgeDrawMode::FullEdge => r.push(BufferRequest::EdgeLines),
                EdgeDrawMode::Off => {},
            }
            r.push(BufferRequest::Points);
            proof {
                assert(r@ =~= buffer_plan(*thing, *settings));
            }
        },
        Some(RenderableThing::HeightMap(_)) => {
            r.push(BufferRequest::HeightMapTriangles);
            proof {
                assert(r@ =~= buffer_plan(*thing, *settings));
            }
        },
        None => {
            proof {
                assert(r@ =~= buffer_plan(*thing, *settings));
            }
        },
    }
    r
}

/// A generated buffer set is handed to the renderer only when it holds
/// positions.
pub fn should_upload<T>(positions: &Vec<T>) -> (r: bool)
    ensures
        r == (positions@.len() > 0),
{
    positions.len() > 0
}

/// With faces and edges switched off, a mesh is drawn as its face overlay and
/// its points, and nothing else.
pub proof fn lemma_mesh_without_faces_or_edges<M, H>(mesh: M, smooth_normals: bool)
    ensures
        buffer_plan(Some(RenderableThing::<M, H>::HalfEdgeMesh { mesh, smooth_normals }),
            Viewport3dSettings { face_mode: FaceDrawMode::Off, edge_mode: EdgeDrawMode::Off })
            == seq![BufferRequest::FaceOverlay, BufferRequest::Points],
{
    assert(buffer_plan(Some(RenderableThing::<M, H>::HalfEdgeMesh { mesh, smooth_normals }),
        Viewport3dSettings { face_mode: FaceDrawMode::Off, edge_mode: EdgeDrawMode::Off })
        =~= seq![BufferRequest::FaceOverlay, BufferRequest::Points]);
}

/// A height map is drawn as exactly one triangle buffer set, whatever the
/// settings.
pub proof fn lemma_height_map_single_set<M, H>(map: H, settings: Viewport3dSettings)
    ensures
        buffer_plan(Some(RenderableThing::<M, H>::HeightMap(map)), settings)
            == seq![BufferRequest::HeightMapTriangles],
{
}

} // verus!
