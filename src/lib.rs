// Translation of an editor node graph into a compiler graph, resolution of
// widget-supplied parameters, the per-frame orchestration of compiling and
// running the active node, and the choice of buffers to draw.

pub mod graph_error;
pub mod ui_graph;
pub mod bjk_graph;
pub mod interop;
pub mod params;
pub mod viewport;
pub mod application_context;
