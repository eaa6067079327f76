use vstd::prelude::*;

verus! {

/// What attaching one sub-mesh adds to an entity's scene graph.
#[derive(Clone, Copy, Debug, PartialEq, Eq, Structural)]
pub struct AttachPlan {
    /// A shape and its data block go under the visual root, and the
    /// sub-mesh's centroid joins the entity's anchor points.
    pub add_visual: bool,
    /// The visual shape takes the flat emissive material.
    pub emissive_material: bool,
    /// A shape goes under the collision root.
    pub add_collision: bool,
    /// The collision shape reuses the visual data block instead of its own.
    pub share_visual_data: bool,
}

/// Decides how a sub-mesh with the given vertex counts enters the scene:
/// each side only where it has vertices, and the collision shape shares the
/// visual data where both sides hold as many vertices.
pub fn attach_plan(vis_vertex_count: usize, col_vertex_count: usize, use_emissive: bool) -> (r:
    AttachPlan)
    ensures
        r.add_visual == (vis_vertex_count > 0),
        r.emissive_material == (vis_vertex_count > 0 && use_emissive),
        r.add_collision == (col_vertex_count > 0),
        r.share_visual_data == (col_vertex_count > 0 && col_vertex_count == vis_vertex_count),
{
    let add_visual = vis_vertex_count > 0;
    let add_collision = col_vertex_count > 0;
    AttachPlan {
        add_visual,
        emissive_material: add_visual && use_emissive,
        add_collision,
        share_visual_data: add_collision && col_vertex_count == vis_vertex_count,
    }
}

} // verus!
