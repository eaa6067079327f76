use morrobroom::brush_ni_node::{BrushFace, BrushNiNode, MeshError};
use morrobroom::brush_ni_node::{collect_faces_with_textures, node_from_faces, to_nif_format};
use morrobroom::material::BrushNiMatProps;
use morrobroom::mesh::attach_plan;

fn quad(texture: &str, content_flags: u32, surface_flags: u32) -> BrushFace {
    BrushFace {
        texture: texture.to_string(),
        content_flags,
        surface_flags,
        tri_indices: vec![0, 1, 2, 0, 2, 3],
        inverted_tri_indices: vec![0, 2, 1, 0, 3, 2],
    }
}

fn no_props() -> Vec<(String, String)> {
    Vec::new()
}

#[test]
fn groups_follow_first_appearance() {
    let faces = vec![
        quad("a", 0, 0),
        quad("b", 0, 0),
        quad("a", 0, 0),
        quad("c", 0, 0),
        quad("b", 0, 0),
    ];
    let groups = collect_faces_with_textures(&faces);
    assert_eq!(groups, vec![vec![0, 2], vec![1, 4], vec![3]]);
}

#[test]
fn groups_of_empty_brush() {
    let faces: Vec<BrushFace> = Vec::new();
    assert!(collect_faces_with_textures(&faces).is_empty());
}

#[test]
fn offsets_count_distinct_indices() {
    let tris = vec![vec![0, 1, 2, 0, 2, 3], vec![0, 1, 2]];
    let out = to_nif_format(&tris).unwrap();
    assert_eq!(out, vec![(0, 1, 2), (0, 2, 3), (4, 5, 6)]);
}

#[test]
fn offsets_skip_repeated_indices() {
    let tris = vec![vec![2, 2, 2], vec![1, 0, 1]];
    let out = to_nif_format(&tris).unwrap();
    assert_eq!(out, vec![(2, 2, 2), (2, 1, 2)]);
}

#[test]
fn incomplete_triangle_is_dropped() {
    let tris = vec![vec![0, 1, 2, 3]];
    assert_eq!(to_nif_format(&tris).unwrap(), vec![(0, 1, 2)]);
}

#[test]
fn largest_index_fits() {
    let tris = vec![vec![65535, 0, 1]];
    assert_eq!(to_nif_format(&tris).unwrap(), vec![(65535, 0, 1)]);
}

#[test]
fn index_past_sixteen_bits_is_refused() {
    let tris = vec![vec![65536, 0, 1]];
    assert_eq!(to_nif_format(&tris), Err(MeshError::CapacityExceeded));
}

#[test]
fn offset_past_sixteen_bits_is_refused() {
    let big: Vec<usize> = (0..65535).collect();
    let tris = vec![big, vec![0, 1, 2]];
    assert_eq!(to_nif_format(&tris), Err(MeshError::CapacityExceeded));
    let fits = vec![(0..65533).collect::<Vec<usize>>(), vec![0, 1, 2]];
    let out = to_nif_format(&fits).unwrap();
    assert_eq!(*out.last().unwrap(), (65533, 65534, 65535));
}

#[test]
fn liquid_face_doubles_drawn_triangles_and_never_collides() {
    let faces = vec![quad("Water_01", 0, 0)];
    let nodes = BrushNiNode::from_brush(&faces, &no_props()).unwrap();
    assert_eq!(nodes.len(), 1);
    let node = &nodes[0];
    assert_eq!(node.vis_faces, vec![0]);
    assert_eq!(node.vis_tris[0], vec![0, 1, 2, 0, 2, 3, 0, 2, 1, 0, 3, 2]);
    assert_eq!(node.vis_triangles.len(), 2 * 2);
    assert!(node.col_faces.is_empty());
    assert!(node.col_triangles.is_empty());
}

#[test]
fn skip_faces_make_no_submesh() {
    let faces = vec![
        quad("skip", 0, 0),
        quad("wood01", 0, 0),
        quad("wood01", 0, 0),
        quad("skip", 0, 0),
        quad("wood01", 0, 0),
        quad("wood01", 0, 0),
    ];
    let nodes = BrushNiNode::from_brush(&faces, &no_props()).unwrap();
    assert_eq!(nodes.len(), 1);
    assert_eq!(nodes[0].texture, "wood01");
    assert_eq!(nodes[0].vis_faces, vec![1, 2, 4, 5]);
    assert_eq!(nodes[0].vis_tris.len(), 4);
    assert_eq!(nodes[0].col_faces, vec![1, 2, 4, 5]);
    assert_eq!(nodes[0].col_tris.len(), 4);
    let plan = attach_plan(16, 16, nodes[0].use_emissive);
    assert!(plan.add_visual && plan.add_collision && plan.share_visual_data);
}

#[test]
fn all_skip_brush_makes_nothing() {
    let faces = vec![quad("skip", 0, 0), quad("SKIP_trigger", 0, 0)];
    let nodes = BrushNiNode::from_brush(&faces, &no_props()).unwrap();
    assert!(nodes.is_empty());
    let joined = BrushNiNode::from_brushes(&vec![faces, vec![quad("a", 0, 0)]], &no_props()).unwrap();
    assert_eq!(joined.len(), 1);
    assert_eq!(joined[0].texture, "a");
}

#[test]
fn clip_collides_but_is_not_drawn() {
    let faces = vec![quad("clip", 0, 0)];
    let node = node_from_faces(&faces, &vec![0], BrushNiMatProps::default());
    assert!(node.vis_faces.is_empty());
    assert_eq!(node.col_faces, vec![0]);
    assert_eq!(node.col_tris[0], vec![0, 1, 2, 0, 2, 3]);
}

#[test]
fn noclip_flag_is_drawn_only() {
    let faces = vec![quad("wood01", 0, 1)];
    let node = node_from_faces(&faces, &vec![0], BrushNiMatProps::default());
    assert_eq!(node.vis_faces, vec![0]);
    assert!(node.col_faces.is_empty());
}

#[test]
fn inverted_face_uses_inward_winding_and_emissive() {
    let faces = vec![quad("wood01", 1, 0)];
    let node = node_from_faces(&faces, &vec![0], BrushNiMatProps::default());
    assert!(node.use_emissive);
    assert_eq!(node.vis_tris[0], vec![0, 2, 1, 0, 3, 2]);
    let sky = vec![quad("SKY5_BLU", 0, 0)];
    let node = node_from_faces(&sky, &vec![0], BrushNiMatProps::default());
    assert!(node.use_emissive);
    assert_eq!(node.vis_tris[0], vec![0, 2, 1, 0, 3, 2]);
}

#[test]
fn phong_flag_asks_for_smooth_normals() {
    let faces = vec![quad("wood01", 0, 2), quad("wood01", 0, 0)];
    let node = node_from_faces(&faces, &vec![0, 1], BrushNiMatProps::default());
    assert_eq!(node.smooth_normals, vec![true, false]);
}

#[test]
fn submesh_triangles_follow_face_order() {
    let faces = vec![quad("wood01", 0, 0), quad("wood01", 0, 0)];
    let nodes = BrushNiNode::from_brush(&faces, &no_props()).unwrap();
    assert_eq!(
        nodes[0].vis_triangles,
        vec![(0, 1, 2), (0, 2, 3), (4, 5, 6), (4, 6, 7)]
    );
    assert_eq!(nodes[0].col_triangles, nodes[0].vis_triangles);
}

#[test]
fn brushes_are_joined_in_order() {
    let first = vec![quad("a", 0, 0), quad("b", 0, 0)];
    let second = vec![quad("c", 0, 0)];
    let nodes = BrushNiNode::from_brushes(&vec![first, second], &no_props()).unwrap();
    let names: Vec<&str> = nodes.iter().map(|n| n.texture.as_str()).collect();
    assert_eq!(names, vec!["a", "b", "c"]);
}

#[test]
fn oversized_brush_is_refused() {
    let face = BrushFace {
        texture: "wood01".to_string(),
        content_flags: 0,
        surface_flags: 0,
        tri_indices: vec![0, 1, 70000],
        inverted_tri_indices: vec![0, 70000, 1],
    };
    assert_eq!(
        BrushNiNode::from_brush(&vec![face], &no_props()).err(),
        Some(MeshError::CapacityExceeded)
    );
}

#[test]
fn collect_fills_both_buffers() {
    let faces = vec![quad("wood01", 0, 0)];
    let mut node = node_from_faces(&faces, &vec![0], BrushNiMatProps::default());
    assert!(node.vis_triangles.is_empty());
    assert_eq!(node.collect(), Ok(()));
    assert_eq!(node.vis_triangles, vec![(0, 1, 2), (0, 2, 3)]);
    assert_eq!(node.col_triangles, vec![(0, 1, 2), (0, 2, 3)]);
}

#[test]
fn attach_shares_equal_sized_data() {
    let plan = attach_plan(8, 8, true);
    assert!(plan.add_visual && plan.emissive_material && plan.add_collision);
    assert!(plan.share_visual_data);
    let plan = attach_plan(8, 4, false);
    assert!(!plan.share_visual_data && !plan.emissive_material);
    let plan = attach_plan(0, 4, true);
    assert!(!plan.add_visual && plan.add_collision && !plan.emissive_material);
}
