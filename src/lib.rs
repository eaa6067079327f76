//! Turns the faces of convex brushes into drawable and collidable sub-meshes:
//! faces are classified by texture and flags, grouped by texture, and their
//! triangles are put into 16-bit buffer order. The command-line checks and
//! property readers that surround that work live here too.

pub mod brush_ni_node;
pub mod cli;
pub mod game_object;
pub mod material;
pub mod mesh;
pub mod number;
pub mod surfaces;
pub mod text;
