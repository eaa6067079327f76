use vstd::prelude::*;

use crate::material::{alpha_from, mat_props_from, BrushNiMatProps};
use crate::surfaces::{
    classify_face, face_effects, is_clip_name, is_liquid_name, is_skip_name, FaceEffects,
};

verus! {

/// One face of a brush as the splitter sees it: its texture, the flags of its
/// extension record (zero where it has none) and its triangles in both
/// windings, as indices into the face's own vertex list.
pub struct BrushFace {
    pub texture: String,
    pub content_flags: u32,
    pub surface_flags: u32,
    pub tri_indices: Vec<usize>,
    pub inverted_tri_indices: Vec<usize>,
}

/// The texture names of a brush's faces, in face order.
pub open spec fn texture_names(faces: Seq<BrushFace>) -> Seq<Seq<char>> {
    faces.map_values(|f: BrushFace| f.texture@)
}

/// The distinct names of `names`, in order of first appearance.
pub open spec fn texture_order(names: Seq<Seq<char>>) -> Seq<Seq<char>>
    decreases names.len(),
{
    if names.len() == 0 {
        seq![]
    } else {
        let prev = texture_order(names.drop_last());
        if prev.contains(names.last()) {
            prev
        } else {
            prev.push(names.last())
        }
    }
}

/// The positions in `names` that hold `name`, in increasing order.
pub open spec fn positions_of(names: Seq<Seq<char>>, name: Seq<char>) -> Seq<usize>
    decreases names.len(),
{
    if names.len() == 0 {
        seq![]
    } else {
        let prev = positions_of(names.drop_last(), name);
        if names.last() == name {
            prev.push((names.len() - 1) as usize)
        } else {
            prev
        }
    }
}

/// A brush's faces grouped by texture: one group per distinct texture, in order
/// of first appearance, each listing the positions of its faces in order.
pub open spec fn texture_groups(names: Seq<Seq<char>>) -> Seq<Seq<usize>> {
    texture_order(names).map_values(|t: Seq<char>| positions_of(names, t))
}

pub open spec fn string_views(v: Seq<String>) -> Seq<Seq<char>> {
    v.map_values(|s: String| s@)
}

fn contains_name(names: &Vec<String>, name: &String) -> (r: bool)
    ensures
        r == string_views(names@).contains(name@),
{
    let mut k: usize = 0;
    while k < names.len()
        invariant
            k <= names@.len(),
            forall|j: int| 0 <= j < k ==> names@[j]@ != name@,
        decreases names@.len() - k,
    {
        if names[k] == *name {
            assert(string_views(names@)[k as int] == name@);
            return true;
        }
        k = k + 1;
    }
    assert(!string_views(names@).contains(name@)) by {
        assert forall|j: int| 0 <= j < string_views(names@).len() implies string_views(
            names@,
        )[j] != name@ by {
            assert(string_views(names@)[j] == names@[j]@);
        }
    }
    false
}

/// The distinct texture names of `faces`, in order of first appearance.
fn distinct_textures(faces: &Vec<BrushFace>) -> (r: Vec<String>)
    ensures
        string_views(r@) == texture_order(texture_names(faces@)),
{
    let ghost names = texture_names(faces@);
    let mut textures: Vec<String> = Vec::new();
    let mut i: usize = 0;
    while i < faces.len()
        invariant
            i <= faces@.len(),
            names == texture_names(faces@),
            string_views(textures@) == texture_order(names.subrange(0, i as int)),
        decreases faces@.len() - i,
    {
        proof {
            assert(names.subrange(0, i + 1).drop_last() =~= names.subrange(0, i as int));
            assert(names.subrange(0, i + 1).last() == faces@[i as int].texture@);
        }
        if !contains_name(&textures, &faces[i].texture) {
            let t = faces[i].texture.clone();
            textures.push(t);
            assert(string_views(textures@) =~= texture_order(names.subrange(0, i + 1)));
        }
        i = i + 1;
    }
    assert(names.subrange(0, faces@.len() as int) =~= names);
    textures
}

/// The positions of the faces of `faces` whose texture is `texture`.
fn faces_with_texture(faces: &Vec<BrushFace>, texture: &String) -> (r: Vec<usize>)
    ensures
        r@ == positions_of(texture_names(faces@), texture@),
{
    let ghost names = texture_names(faces@);
    let mut group: Vec<usize> = Vec::new();
    let mut i: usize = 0;
    while i < faces.len()
        invariant
            i <= faces@.len(),
            names == texture_names(faces@),
            group@ == positions_of(names.subrange(0, i as int), texture@),
        decreases faces@.len() - i,
    {
        proof {
            assert(names.subrange(0, i + 1).drop_last() =~= names.subrange(0, i as int));
            assert(names.subrange(0, i + 1).last() == faces@[i as int].texture@);
        }
        if faces[i].texture == *texture {
            group.push(i);
        }
        i = i + 1;
    }
    assert(names.subrange(0, faces@.len() as int) =~= names);
    group
}

/// Groups a brush's faces by texture, keeping the order in which textures
/// first appear and the order of the faces within each group.
pub fn collect_faces_with_textures(faces: &Vec<BrushFace>) -> (r: Vec<Vec<usize>>)
    ensures
        r@.len() == texture_groups(texture_names(faces@)).len(),
        forall|g: int|
            0 <= g < r@.len() ==> #[trigger] r@[g]@ == texture_groups(texture_names(faces@))[g],
{
    let textures = distinct_textures(faces);
    let ghost names = texture_names(faces@);
    let mut groups: Vec<Vec<usize>> = Vec::new();
    let mut g: usize = 0;
    while g < textures.len()
        invariant
            g <= textures@.len(),
            names == texture_names(faces@),
            string_views(textures@) == texture_order(names),
            groups@.len() == g,
            forall|h: int|
                0 <= h < g ==> #[trigger] groups@[h]@ == texture_groups(names)[h],
        decreases textures@.len() - g,
    {
        let group = faces_with_texture(faces, &textures[g]);
        assert(string_views(textures@)[g as int] == textures@[g as int]@);
        groups.push(group);
        g = g + 1;
    }
    groups
}

/// One sub-mesh of a brush: the faces of one texture, split into what is
/// drawn and what collides. Faces are named by their position in the brush,
/// so the caller keeps the vertex, normal and UV data that belongs to them.
pub struct BrushNiNode {
    pub texture: String,
    pub use_emissive: bool,
    /// The faces drawn, in order.
    pub vis_faces: Vec<usize>,
    /// For each drawn face, whether it takes averaged (smooth) normals.
    pub smooth_normals: Vec<bool>,
    /// For each drawn face, its triangle indices, local to the face.
    pub vis_tris: Vec<Vec<usize>>,
    /// The faces that collide, in order.
    pub col_faces: Vec<usize>,
    /// For each colliding face, its triangle indices, local to the face.
    pub col_tris: Vec<Vec<usize>>,
    /// The drawn triangles, indexed into the sub-mesh's vertex buffer.
    pub vis_triangles: Vec<(u16, u16, u16)>,
    /// The colliding triangles, indexed into the collision vertex buffer.
    pub col_triangles: Vec<(u16, u16, u16)>,
    /// The material settings of the owning entity.
    pub mat_props: BrushNiMatProps,
}

pub open spec fn effects_of(f: BrushFace) -> FaceEffects {
    face_effects(f.texture@, f.content_flags, f.surface_flags)
}

/// The triangle indices that a face contributes: its outward winding, or its
/// inward one where it is inverted, followed by the inward winding again for
/// a liquid, which is seen from both sides.
pub open spec fn emitted_indices(f: BrushFace) -> Seq<usize> {
    let e = effects_of(f);
    (if e.invert_winding {
        f.inverted_tri_indices@
    } else {
        f.tri_indices@
    }) + (if e.append_inverted {
        f.inverted_tri_indices@
    } else {
        seq![]
    })
}

pub open spec fn shows_visual(f: BrushFace) -> bool {
    !effects_of(f).exclude_visual
}

pub open spec fn shows_collision(f: BrushFace) -> bool {
    !effects_of(f).exclude_collision
}

/// The faces of `group` that are drawn, in order.
pub open spec fn visual_faces(faces: Seq<BrushFace>, group: Seq<usize>) -> Seq<usize>
    decreases group.len(),
{
    if group.len() == 0 {
        seq![]
    } else {
        let prev = visual_faces(faces, group.drop_last());
        if shows_visual(faces[group.last() as int]) {
            prev.push(group.last())
        } else {
            prev
        }
    }
}

/// The faces of `group` that collide, in order.
pub open spec fn collision_faces(faces: Seq<BrushFace>, group: Seq<usize>) -> Seq<usize>
    decreases group.len(),
{
    if group.len() == 0 {
        seq![]
    } else {
        let prev = collision_faces(faces, group.drop_last());
        if shows_collision(faces[group.last() as int]) {
            prev.push(group.last())
        } else {
            prev
        }
    }
}

/// Some face of `group` that is not skipped asks for an emissive material.
pub open spec fn group_emissive(faces: Seq<BrushFace>, group: Seq<usize>) -> bool {
    exists|k: int|
        0 <= k < group.len() && !effects_of(faces[group[k] as int]).skipped
            && effects_of(#[trigger] faces[group[k] as int]).use_emissive
}

pub open spec fn group_in_range(faces: Seq<BrushFace>, group: Seq<usize>) -> bool {
    forall|k: int| 0 <= k < group.len() ==> #[trigger] group[k] < faces.len()
}

/// `tris` and `smooth` give, for each drawn face of `sel`, its triangles and
/// whether it takes smooth normals.
pub open spec fn drawn_lists(
    faces: Seq<BrushFace>,
    sel: Seq<usize>,
    tris: Seq<Vec<usize>>,
    smooth: Seq<bool>,
) -> bool {
    &&& smooth.len() == sel.len()
    &&& tris.len() == sel.len()
    &&& forall|i: int|
        0 <= i < sel.len() ==> {
            &&& (#[trigger] tris[i])@ == emitted_indices(faces[sel[i] as int])
            &&& smooth[i] == effects_of(faces[sel[i] as int]).use_smooth_normals
        }
}

/// `tris` gives, for each colliding face of `sel`, its triangles.
pub open spec fn collided_lists(faces: Seq<BrushFace>, sel: Seq<usize>, tris: Seq<Vec<usize>>) -> bool {
    &&& tris.len() == sel.len()
    &&& forall|i: int|
        0 <= i < sel.len() ==> (#[trigger] tris[i])@ == emitted_indices(faces[sel[i] as int])
}

proof fn lemma_drawn_push(
    faces: Seq<BrushFace>,
    sel: Seq<usize>,
    tris: Seq<Vec<usize>>,
    smooth: Seq<bool>,
    j: usize,
    t: Vec<usize>,
    b: bool,
)
    requires
        drawn_lists(faces, sel, tris, smooth),
        t@ == emitted_indices(faces[j as int]),
        b == effects_of(faces[j as int]).use_smooth_normals,
    ensures
        drawn_lists(faces, sel.push(j), tris.push(t), smooth.push(b)),
{
    assert forall|i: int| 0 <= i < sel.len() + 1 implies {
        &&& (#[trigger] tris.push(t)[i])@ == emitted_indices(faces[sel.push(j)[i] as int])
        &&& smooth.push(b)[i] == effects_of(faces[sel.push(j)[i] as int]).use_smooth_normals
    } by {
        if i < sel.len() {
            assert(tris.push(t)[i] == tris[i]);
        }
    }
}

proof fn lemma_collided_push(
    faces: Seq<BrushFace>,
    sel: Seq<usize>,
    tris: Seq<Vec<usize>>,
    j: usize,
    t: Vec<usize>,
)
    requires
        collided_lists(faces, sel, tris),
        t@ == emitted_indices(faces[j as int]),
    ensures
        collided_lists(faces, sel.push(j), tris.push(t)),
{
    assert forall|i: int| 0 <= i < sel.len() + 1 implies (#[trigger] tris.push(t)[i])@
        == emitted_indices(faces[sel.push(j)[i] as int]) by {
        if i < sel.len() {
            assert(tris.push(t)[i] == tris[i]);
        }
    }
}

/// `n` holds the faces of `group`, split as the classifier decides, before
/// its triangles are put into buffer order.
pub open spec fn node_built(faces: Seq<BrushFace>, group: Seq<usize>, n: BrushNiNode) -> bool {
    &&& n.texture@ == (if group.len() > 0 {
        faces[group[0] as int].texture@
    } else {
        seq![]
    })
    &&& n.use_emissive == group_emissive(faces, group)
    &&& n.vis_faces@ == visual_faces(faces, group)
    &&& drawn_lists(faces, n.vis_faces@, n.vis_tris@, n.smooth_normals@)
    &&& n.col_faces@ == collision_faces(faces, group)
    &&& collided_lists(faces, n.col_faces@, n.col_tris@)
}

fn copy_indices(v: &Vec<usize>) -> (r: Vec<usize>)
    ensures
        r@ == v@,
{
    let mut r: Vec<usize> = Vec::new();
    let mut i: usize = 0;
    while i < v.len()
        invariant
            i <= v@.len(),
            r@ == v@.subrange(0, i as int),
        decreases v@.len() - i,
    {
        r.push(v[i]);
        i = i + 1;
        assert(r@ =~= v@.subrange(0, i as int));
    }
    assert(v@.subrange(0, v@.len() as int) =~= v@);
    r
}

fn face_indices(f: &BrushFace, e: FaceEffects) -> (r: Vec<usize>)
    requires
        e == effects_of(*f),
    ensures
        r@ == emitted_indices(*f),
{
    let mut indices = if e.invert_winding {
        copy_indices(&f.inverted_tri_indices)
    } else {
        copy_indices(&f.tri_indices)
    };
    if e.append_inverted {
        let mut extra = copy_indices(&f.inverted_tri_indices);
        indices.append(&mut extra);
    } else {
        assert(indices@ + seq![] =~= indices@);
    }
    indices
}

/// Builds the sub-mesh of one texture group of a brush.
pub fn node_from_faces(faces: &Vec<BrushFace>, group: &Vec<usize>, mat_props: BrushNiMatProps) -> (r:
    BrushNiNode)
    requires
        group_in_range(faces@, group@),
    ensures
        node_built(faces@, group@, r),
        r.mat_props == mat_props,
        r.vis_triangles@.len() == 0,
        r.col_triangles@.len() == 0,
{
    let texture = if group.len() > 0 {
        faces[group[0]].texture.clone()
    } else {
        String::new()
    };
    let mut node = BrushNiNode {
        texture,
        use_emissive: false,
        vis_faces: Vec::new(),
        smooth_normals: Vec::new(),
        vis_tris: Vec::new(),
        col_faces: Vec::new(),
        col_tris: Vec::new(),
        vis_triangles: Vec::new(),
        col_triangles: Vec::new(),
        mat_props,
    };
    let mut k: usize = 0;
    while k < group.len()
        invariant
            k <= group@.len(),
            group_in_range(faces@, group@),
            node.texture@ == (if group@.len() > 0 {
                faces@[group@[0] as int].texture@
            } else {
                seq![]
            }),
            node.vis_triangles@.len() == 0,
            node.col_triangles@.len() == 0,
            node.mat_props == mat_props,
            node.use_emissive == group_emissive(faces@, group@.subrange(0, k as int)),
            node.vis_faces@ == visual_faces(faces@, group@.subrange(0, k as int)),
            drawn_lists(faces@, node.vis_faces@, node.vis_tris@, node.smooth_normals@),
            node.col_faces@ == collision_faces(faces@, group@.subrange(0, k as int)),
            collided_lists(faces@, node.col_faces@, node.col_tris@),
        decreases group@.len() - k,
    {
        let ghost prefix = group@.subrange(0, k as int);
        let ghost next = group@.subrange(0, k + 1);
        proof {
            assert(next.drop_last() =~= prefix);
            assert(next.last() == group@[k as int]);
        }
        let j = group[k];
        assert(j < faces@.len());
        let f = &faces[j];
        let e = classify_face(f.texture.as_str(), f.content_flags, f.surface_flags);
        if !e.skipped {
            if e.use_emissive {
                node.use_emissive = true;
            }
            if !e.exclude_visual {
                let indices = face_indices(f, e);
                proof {
                    lemma_drawn_push(
                        faces@,
                        node.vis_faces@,
                        node.vis_tris@,
                        node.smooth_normals@,
                        j,
                        indices,
                        e.use_smooth_normals,
                    );
                }
                node.vis_faces.push(j);
                node.smooth_normals.push(e.use_smooth_normals);
                node.vis_tris.push(indices);
            }
            if !e.exclude_collision {
                let indices = face_indices(f, e);
                proof {
                    lemma_collided_push(faces@, node.col_faces@, node.col_tris@, j, indices);
                }
                node.col_faces.push(j);
                node.col_tris.push(indices);
            }
        }
        proof {
            if group_emissive(faces@, next) {
                let w = choose|w: int|
                    0 <= w < next.len() && !effects_of(faces@[next[w] as int]).skipped
                        && effects_of(#[trigger] faces@[next[w] as int]).use_emissive;
                if w < k {
                    assert(prefix[w] == next[w]);
                }
            }
            if group_emissive(faces@, prefix) {
                let w = choose|w: int|
                    0 <= w < prefix.len() && !effects_of(faces@[prefix[w] as int]).skipped
                        && effects_of(#[trigger] faces@[prefix[w] as int]).use_emissive;
                assert(prefix[w] == next[w]);
            }
            if !e.skipped && e.use_emissive {
                assert(next[k as int] == j);
            }
        }
        k = k + 1;
    }
    assert(group@.subrange(0, group@.len() as int) =~= group@);
    node
}

/// Why a brush could not be turned into sub-meshes.
#[derive(Clone, Copy, Debug, PartialEq, Eq, Structural)]
pub enum MeshError {
    /// A sub-mesh would index a vertex past the 16-bit range.
    CapacityExceeded,
}

/// The largest vertex index a sub-mesh can hold.
pub const MAX_INDEX: usize = 65535;

/// The number of distinct values in `s`.
pub open spec fn distinct_count(s: Seq<usize>) -> nat
    decreases s.len(),
{
    if s.len() == 0 {
        0
    } else {
        distinct_count(s.drop_last()) + if s.drop_last().contains(s.last()) {
            0nat
        } else {
            1nat
        }
    }
}

/// Where the vertices of face `k` start in the buffer: each earlier face
/// takes as many slots as the distinct indices its triangles use.
pub open spec fn face_offset(tris: Seq<Seq<usize>>, k: int) -> nat
    decreases k,
{
    if k <= 0 {
        0
    } else {
        face_offset(tris, k - 1) + distinct_count(tris[k - 1])
    }
}

/// The whole triangles of one face's index list, shifted by `offset`
/// (a trailing incomplete triangle is dropped).
pub open spec fn face_triangles(face: Seq<usize>, offset: int) -> Seq<(int, int, int)> {
    Seq::new(
        (face.len() / 3) as nat,
        |t: int| (face[3 * t] + offset, face[3 * t + 1] + offset, face[3 * t + 2] + offset),
    )
}

/// The triangles of the first `k` faces, in buffer order.
pub open spec fn buffer_triangles(tris: Seq<Seq<usize>>, k: int) -> Seq<(int, int, int)>
    decreases k,
{
    if k <= 0 {
        seq![]
    } else {
        buffer_triangles(tris, k - 1) + face_triangles(tris[k - 1], face_offset(tris, k - 1) as int)
    }
}

pub open spec fn triangle_fits(t: (int, int, int)) -> bool {
    t.0 <= MAX_INDEX && t.1 <= MAX_INDEX && t.2 <= MAX_INDEX
}

/// Every index of every triangle of `tris` fits in 16 bits.
pub open spec fn all_fit(tris: Seq<Seq<usize>>) -> bool {
    let all = buffer_triangles(tris, tris.len() as int);
    forall|i: int| 0 <= i < all.len() ==> triangle_fits(#[trigger] all[i])
}

pub open spec fn triangle_ints(t: Seq<(u16, u16, u16)>) -> Seq<(int, int, int)> {
    t.map_values(|x: (u16, u16, u16)| (x.0 as int, x.1 as int, x.2 as int))
}

pub open spec fn tri_views(t: Seq<Vec<usize>>) -> Seq<Seq<usize>> {
    t.map_values(|v: Vec<usize>| v@)
}

proof fn lemma_buffer_prefix(tris: Seq<Seq<usize>>, k: int, n: int)
    requires
        0 <= k <= n,
    ensures
        buffer_triangles(tris, k).len() <= buffer_triangles(tris, n).len(),
        forall|i: int|
            0 <= i < buffer_triangles(tris, k).len() ==> buffer_triangles(tris, k)[i]
                == #[trigger] buffer_triangles(tris, n)[i],
    decreases n - k,
{
    if k < n {
        lemma_buffer_prefix(tris, k, n - 1);
    }
}

fn count_distinct(s: &Vec<usize>) -> (r: usize)
    ensures
        r == distinct_count(s@),
        r <= s@.len(),
{
    let mut r: usize = 0;
    let mut i: usize = 0;
    while i < s.len()
        invariant
            i <= s@.len(),
            r == distinct_count(s@.subrange(0, i as int)),
            r <= i,
        decreases s@.len() - i,
    {
        let ghost prefix = s@.subrange(0, i as int);
        let mut seen = false;
        let mut j: usize = 0;
        while j < i
            invariant
                j <= i < s@.len(),
                prefix == s@.subrange(0, i as int),
                seen == exists|m: int| 0 <= m < j && prefix[m] == s@[i as int],
            decreases i - j,
        {
            if s[j] == s[i] {
                assert(prefix[j as int] == s@[i as int]);
                seen = true;
            }
            j = j + 1;
        }
        proof {
            let next = s@.subrange(0, i + 1);
            assert(next.drop_last() =~= prefix);
            assert(next.last() == s@[i as int]);
            if seen {
                let m = choose|m: int| 0 <= m < i && prefix[m] == s@[i as int];
                assert(prefix.contains(s@[i as int]));
            } else {
                assert(!prefix.contains(s@[i as int]));
            }
        }
        if !seen {
            r = r + 1;
        }
        i = i + 1;
    }
    assert(s@.subrange(0, s@.len() as int) =~= s@);
    r
}

/// `v` shifted by `off`, where `off` is a face offset capped at one past the
/// largest index: `None` exactly when the shifted index leaves 16 bits.
fn shifted(v: usize, off: usize) -> (r: Option<u16>)
    requires
        off <= MAX_INDEX + 1,
    ensures
        r is Some <==> v + off <= MAX_INDEX,
        r is Some ==> r->0 as int == v + off,
{
    if off > MAX_INDEX || v > MAX_INDEX - off {
        None
    } else {
        Some((v + off) as u16)
    }
}

/// Puts the per-face triangle lists of a sub-mesh into buffer order: each
/// face's indices are shifted past the vertices of the faces before it, and
/// every index must fit in 16 bits.
pub fn to_nif_format(tris: &Vec<Vec<usize>>) -> (r: Result<Vec<(u16, u16, u16)>, MeshError>)
    ensures
        r is Ok <==> all_fit(tri_views(tris@)),
        r is Ok ==> triangle_ints(r->Ok_0@) == buffer_triangles(
            tri_views(tris@),
            tris@.len() as int,
        ),
        r is Err ==> r->Err_0 == MeshError::CapacityExceeded,
{
    let ghost views = tri_views(tris@);
    let ghost n = tris@.len() as int;
    let mut out: Vec<(u16, u16, u16)> = Vec::new();
    let mut off: usize = 0;
    let mut k: usize = 0;
    while k < tris.len()
        invariant
            k <= tris@.len(),
            views == tri_views(tris@),
            n == tris@.len(),
            off as int == if face_offset(views, k as int) <= MAX_INDEX + 1 {
                face_offset(views, k as int) as int
            } else {
                MAX_INDEX + 1
            },
            triangle_ints(out@) == buffer_triangles(views, k as int),
            forall|i: int|
                0 <= i < buffer_triangles(views, k as int).len() ==> triangle_fits(
                    #[trigger] buffer_triangles(views, k as int)[i],
                ),
        decreases tris@.len() - k,
    {
        let face = &tris[k];
        assert(face@ == views[k as int]);
        let ghost true_off = face_offset(views, k as int) as int;
        let ghost before = buffer_triangles(views, k as int);
        let ghost mine = face_triangles(views[k as int], true_off);
        let ghost out0 = out@;
        let count = face.len() / 3;
        let mut t: usize = 0;
        while t < count
            invariant
                t <= count,
                count == face@.len() / 3,
                k < tris@.len(),
                n == tris@.len(),
                views == tri_views(tris@),
                face@.len() <= usize::MAX,
                before == buffer_triangles(views, k as int),
                true_off == face_offset(views, k as int) as int,
                face@ == views[k as int],
                off as int == if true_off <= MAX_INDEX + 1 {
                    true_off
                } else {
                    MAX_INDEX + 1
                },
                mine == face_triangles(views[k as int], true_off),
                out@.len() == out0.len() + t,
                out@.subrange(0, out0.len() as int) == out0,
                triangle_ints(out0) == before,
                forall|i: int|
                    0 <= i < t ==> triangle_ints(out@)[out0.len() + i] == #[trigger] mine[i],
                forall|i: int| 0 <= i < t ==> triangle_fits(#[trigger] mine[i]),
            decreases count - t,
        {
            assert(3 * t + 2 < face@.len()) by (nonlinear_arith)
                requires
                    t < count,
                    count == face@.len() / 3,
            ;
            let a = shifted(face[3 * t], off);
            let b = shifted(face[3 * t + 1], off);
            let c = shifted(face[3 * t + 2], off);
            match (a, b, c) {
                (Some(a), Some(b), Some(c)) => {
                    let ghost old_out = out@;
                    out.push((a, b, c));
                    assert forall|i: int| 0 <= i < t + 1 implies triangle_ints(out@)[out0.len()
                        + i] == #[trigger] mine[i] by {
                        if i < t {
                            assert(out@[out0.len() + i] == old_out[out0.len() + i]);
                        }
                    }
                    assert(out@.subrange(0, out0.len() as int) =~= out0) by {
                        assert forall|i: int| 0 <= i < out0.len() implies out@[i] == out0[i] by {
                            assert(old_out.subrange(0, out0.len() as int)[i] == out0[i]);
                        }
                    }
                },
                _ => {
                    proof {
                        let all = buffer_triangles(views, n);
                        lemma_buffer_prefix(views, k + 1, n);
                        let idx = before.len() + t;
                        assert(buffer_triangles(views, k + 1) == before + mine);
                        assert(buffer_triangles(views, k + 1)[idx] == mine[t as int]);
                        assert(!triangle_fits(mine[t as int]));
                        assert(!triangle_fits(all[idx]));
                        assert(views.len() == n);
                        assert(idx < all.len());
                    }
                    return Err(MeshError::CapacityExceeded);
                },
            }
            t = t + 1;
        }
        let d = count_distinct(face);
        off = if d > MAX_INDEX + 1 - off {
            MAX_INDEX + 1
        } else {
            off + d
        };
        proof {
            assert(buffer_triangles(views, k + 1) == before + mine);
            assert(out@ =~= out0 + out@.subrange(out0.len() as int, out@.len() as int));
            assert(triangle_ints(out@) =~= before + mine) by {
                assert forall|i: int| 0 <= i < out@.len() implies triangle_ints(out@)[i] == (
                before + mine)[i] by {
                    if i < out0.len() {
                        assert(out@.subrange(0, out0.len() as int)[i] == out@[i]);
                    } else {
                        assert(triangle_ints(out@)[out0.len() + (i - out0.len())] == mine[i
                            - out0.len()]);
                    }
                }
            }
        }
        k = k + 1;
    }
    Ok(out)
}

/// The triangles of every face of `sel`, as the faces emit them.
pub open spec fn face_tris(faces: Seq<BrushFace>, sel: Seq<usize>) -> Seq<Seq<usize>> {
    sel.map_values(|j: usize| emitted_indices(faces[j as int]))
}

/// The drawn and the colliding triangles of `group` fit in 16-bit indices.
pub open spec fn group_fits(faces: Seq<BrushFace>, group: Seq<usize>) -> bool {
    &&& all_fit(face_tris(faces, visual_faces(faces, group)))
    &&& all_fit(face_tris(faces, collision_faces(faces, group)))
}

/// Both triangle lists of `n` fit in 16-bit indices.
pub open spec fn node_fits(n: BrushNiNode) -> bool {
    all_fit(tri_views(n.vis_tris@)) && all_fit(tri_views(n.col_tris@))
}

/// The buffer-order triangles of `n` are those of its per-face lists.
pub open spec fn node_collected(n: BrushNiNode) -> bool {
    &&& triangle_ints(n.vis_triangles@) == buffer_triangles(
        tri_views(n.vis_tris@),
        n.vis_tris@.len() as int,
    )
    &&& triangle_ints(n.col_triangles@) == buffer_triangles(
        tri_views(n.col_tris@),
        n.col_tris@.len() as int,
    )
}

/// The texture groups of a brush.
pub open spec fn brush_groups(faces: Seq<BrushFace>) -> Seq<Seq<usize>> {
    texture_groups(texture_names(faces))
}

/// Every group of the brush fits in 16-bit indices.
pub open spec fn brush_fits(faces: Seq<BrushFace>) -> bool {
    forall|g: int| 0 <= g < brush_groups(faces).len() ==> group_fits(faces, #[trigger] brush_groups(faces)[g])
}

/// The group has a face that is drawn or that collides.
pub open spec fn group_has_faces(faces: Seq<BrushFace>, group: Seq<usize>) -> bool {
    visual_faces(faces, group).len() > 0 || collision_faces(faces, group).len() > 0
}

/// The groups of `groups` that have a face drawn or colliding, in order.
pub open spec fn kept_groups(faces: Seq<BrushFace>, groups: Seq<Seq<usize>>) -> Seq<Seq<usize>>
    decreases groups.len(),
{
    if groups.len() == 0 {
        seq![]
    } else {
        let prev = kept_groups(faces, groups.drop_last());
        if group_has_faces(faces, groups.last()) {
            prev.push(groups.last())
        } else {
            prev
        }
    }
}

/// The texture groups of a brush that make a sub-mesh.
pub open spec fn brush_kept_groups(faces: Seq<BrushFace>) -> Seq<Seq<usize>> {
    kept_groups(faces, brush_groups(faces))
}

/// `nodes` are the finished sub-meshes of the brush: one per texture group
/// with a drawn or colliding face, in order of first appearance.
pub open spec fn brush_nodes(faces: Seq<BrushFace>, nodes: Seq<BrushNiNode>) -> bool {
    &&& nodes.len() == brush_kept_groups(faces).len()
    &&& forall|g: int|
        0 <= g < nodes.len() ==> node_built(faces, brush_kept_groups(faces)[g], #[trigger] nodes[g])
            && node_collected(nodes[g])
}

proof fn lemma_positions_in_range(names: Seq<Seq<char>>, t: Seq<char>)
    ensures
        forall|k: int|
            0 <= k < positions_of(names, t).len() ==> #[trigger] positions_of(names, t)[k]
                < names.len(),
    decreases names.len(),
{
    if names.len() > 0 {
        let prev = positions_of(names.drop_last(), t);
        lemma_positions_in_range(names.drop_last(), t);
        assert forall|k: int| 0 <= k < positions_of(names, t).len() implies #[trigger] positions_of(
            names,
            t,
        )[k] < names.len() by {
            if k < prev.len() {
                assert(positions_of(names, t)[k] == prev[k]);
            }
        }
    }
}

proof fn lemma_built_tris(faces: Seq<BrushFace>, group: Seq<usize>, n: BrushNiNode)
    requires
        node_built(faces, group, n),
    ensures
        tri_views(n.vis_tris@) == face_tris(faces, visual_faces(faces, group)),
        tri_views(n.col_tris@) == face_tris(faces, collision_faces(faces, group)),
{
    assert(tri_views(n.vis_tris@) =~= face_tris(faces, visual_faces(faces, group)));
    assert(tri_views(n.col_tris@) =~= face_tris(faces, collision_faces(faces, group)));
}

impl BrushNiNode {
    /// Puts both triangle lists into buffer order.
    pub fn collect(&mut self) -> (r: Result<(), MeshError>)
        ensures
            r is Ok <==> node_fits(*old(self)),
            r is Ok ==> node_collected(*final(self)),
            r is Err ==> r->Err_0 == MeshError::CapacityExceeded,
            final(self).texture@ == old(self).texture@,
            final(self).use_emissive == old(self).use_emissive,
            final(self).vis_faces@ == old(self).vis_faces@,
            final(self).smooth_normals@ == old(self).smooth_normals@,
            final(self).vis_tris@ == old(self).vis_tris@,
            final(self).col_faces@ == old(self).col_faces@,
            final(self).col_tris@ == old(self).col_tris@,
            final(self).mat_props == old(self).mat_props,
    {
        let vis = to_nif_format(&self.vis_tris);
        let col = to_nif_format(&self.col_tris);
        match (vis, col) {
            (Ok(v), Ok(c)) => {
                self.vis_triangles = v;
                self.col_triangles = c;
                Ok(())
            },
            _ => Err(MeshError::CapacityExceeded),
        }
    }

    /// The sub-meshes of one brush: one per texture that has a drawn or a
    /// colliding face, in order of first appearance, with their triangles in
    /// buffer order and the material settings of the entity's properties.
    /// A texture whose faces are all left out (skip faces) makes none.
    pub fn from_brush(faces: &Vec<BrushFace>, props: &Vec<(String, String)>) -> (r: Result<
        Vec<BrushNiNode>,
        MeshError,
    >)
        ensures
            r is Ok <==> brush_fits(faces@),
            r is Ok ==> brush_nodes(faces@, r->Ok_0@),
            r is Ok ==> forall|g: int|
                0 <= g < r->Ok_0@.len() ==> (#[trigger] r->Ok_0@[g]).mat_props.alpha == alpha_from(
                    props@,
                ),
            r is Err ==> r->Err_0 == MeshError::CapacityExceeded,
    {
        let mat = mat_props_from(props);
        let groups = collect_faces_with_textures(faces);
        let ghost all = brush_groups(faces@);
        let mut nodes: Vec<BrushNiNode> = Vec::new();
        let mut g: usize = 0;
        while g < groups.len()
            invariant
                g <= groups@.len(),
                all == brush_groups(faces@),
                groups@.len() == all.len(),
                forall|h: int| 0 <= h < groups@.len() ==> #[trigger] groups@[h]@ == all[h],
                nodes@.len() == kept_groups(faces@, all.subrange(0, g as int)).len(),
                forall|h: int| 0 <= h < g ==> group_fits(faces@, #[trigger] all[h]),
                forall|h: int|
                    0 <= h < nodes@.len() ==> node_built(
                        faces@,
                        kept_groups(faces@, all.subrange(0, g as int))[h],
                        #[trigger] nodes@[h],
                    ) && node_collected(nodes@[h]),
                mat.alpha == alpha_from(props@),
                forall|h: int| 0 <= h < nodes@.len() ==> (#[trigger] nodes@[h]).mat_props.alpha == mat.alpha,
            decreases groups@.len() - g,
        {
            proof {
                assert(groups@[g as int]@ == all[g as int]);
                let names = texture_names(faces@);
                let t = texture_order(names)[g as int];
                lemma_positions_in_range(names, t);
                assert(all[g as int] == positions_of(names, t));
                assert(names.len() == faces@.len());
            }
            let mut node = node_from_faces(faces, &groups[g], mat);
            proof {
                lemma_built_tris(faces@, all[g as int], node);
                let prefix = all.subrange(0, g as int);
                let next = all.subrange(0, g + 1);
                assert(next.drop_last() =~= prefix);
                assert(next.last() == all[g as int]);
            }
            let ghost kept_before = kept_groups(faces@, all.subrange(0, g as int));
            if node.vis_faces.len() > 0 || node.col_faces.len() > 0 {
                let ghost before = node;
                match node.collect() {
                    Ok(()) => {},
                    Err(e) => {
                        assert(!group_fits(faces@, all[g as int]));
                        assert(!brush_fits(faces@));
                        return Err(e);
                    },
                }
                assert(node_built(faces@, all[g as int], node)) by {
                    assert(node.vis_faces@ == before.vis_faces@);
                    assert(node.col_faces@ == before.col_faces@);
                }
                let ghost old_nodes = nodes@;
                nodes.push(node);
                proof {
                    let kept = kept_groups(faces@, all.subrange(0, g + 1));
                    assert(kept == kept_before.push(all[g as int]));
                    assert forall|h: int| 0 <= h < nodes@.len() implies node_built(
                        faces@,
                        kept[h],
                        #[trigger] nodes@[h],
                    ) && node_collected(nodes@[h]) by {
                        if h < old_nodes.len() {
                            assert(nodes@[h] == old_nodes[h]);
                            assert(kept[h] == kept_before[h]);
                        }
                    }
                }
            } else {
                proof {
                    assert(visual_faces(faces@, all[g as int]).len() == 0);
                    assert(collision_faces(faces@, all[g as int]).len() == 0);
                    assert(face_tris(faces@, visual_faces(faces@, all[g as int])).len() == 0);
                    assert(face_tris(faces@, collision_faces(faces@, all[g as int])).len() == 0);
                    assert(group_fits(faces@, all[g as int]));
                    assert(kept_groups(faces@, all.subrange(0, g + 1)) == kept_before);
                }
            }
            g = g + 1;
        }
        assert(all.subrange(0, groups@.len() as int) =~= all);
        Ok(nodes)
    }

    /// The sub-meshes of several brushes of one entity, brush after brush.
    pub fn from_brushes(brushes: &Vec<Vec<BrushFace>>, props: &Vec<(String, String)>) -> (r: Result<
        Vec<BrushNiNode>,
        MeshError,
    >)
        ensures
            r is Ok <==> forall|b: int| 0 <= b < brushes@.len() ==> brush_fits(#[trigger] brushes@[b]@),
            r is Ok ==> r->Ok_0@.len() == nodes_before(brushes@, brushes@.len() as int),
            r is Ok ==> forall|b: int|
                0 <= b < brushes@.len() ==> #[trigger] brush_placed(r->Ok_0@, brushes@, b, props@),
            r is Err ==> r->Err_0 == MeshError::CapacityExceeded,
    {
        let mut out: Vec<BrushNiNode> = Vec::new();
        let mut b: usize = 0;
        while b < brushes.len()
            invariant
                b <= brushes@.len(),
                forall|c: int| 0 <= c < b ==> brush_fits(#[trigger] brushes@[c]@),
                out@.len() == nodes_before(brushes@, b as int),
                forall|c: int| 0 <= c < b ==> #[trigger] brush_placed(out@, brushes@, c, props@),
            decreases brushes@.len() - b,
        {
            proof {
                lemma_nodes_before_grows(brushes@, b as int);
            }
            match BrushNiNode::from_brush(&brushes[b], props) {
                Ok(mut nodes) => {
                    let ghost old_out = out@;
                    let ghost fresh = nodes@;
                    out.append(&mut nodes);
                    proof {
                        assert forall|c: int| 0 <= c < b + 1 implies #[trigger] brush_placed(
                            out@,
                            brushes@,
                            c,
                            props@,
                        ) by {
                            if c < b {
                                lemma_nodes_before_grows(brushes@, c);
                                lemma_nodes_before_mono(brushes@, c + 1, b as int);
                                lemma_placed_extend(old_out, fresh, brushes@, c, props@);
                            } else {
                                assert forall|g: int|
                                    0 <= g < brush_kept_groups(brushes@[c]@).len() implies node_ok(
                                    brushes@[c]@,
                                    #[trigger] brush_kept_groups(brushes@[c]@)[g],
                                    out@[nodes_before(brushes@, c) + g],
                                    props@,
                                ) by {
                                    assert(out@[nodes_before(brushes@, c) + g] == fresh[g]);
                                }
                            }
                        }
                    }
                },
                Err(e) => {
                    return Err(e);
                },
            }
            b = b + 1;
        }
        Ok(out)
    }
}

/// `n` is the finished sub-mesh of `group` with the entity's material settings.
pub open spec fn node_ok(
    faces: Seq<BrushFace>,
    group: Seq<usize>,
    n: BrushNiNode,
    props: Seq<(String, String)>,
) -> bool {
    &&& node_built(faces, group, n)
    &&& node_collected(n)
    &&& n.mat_props.alpha == alpha_from(props)
}

/// The sub-meshes of brush `b` stand in `nodes` where the brushes before it
/// leave off, one per texture group that has a drawn or colliding face, built from its faces with the
/// entity's material settings.
pub open spec fn brush_placed(
    nodes: Seq<BrushNiNode>,
    brushes: Seq<Vec<BrushFace>>,
    b: int,
    props: Seq<(String, String)>,
) -> bool {
    forall|g: int|
        0 <= g < brush_kept_groups(brushes[b]@).len() ==> node_ok(
            brushes[b]@,
            #[trigger] brush_kept_groups(brushes[b]@)[g],
            nodes[nodes_before(brushes, b) + g],
            props,
        )
}

proof fn lemma_placed_extend(
    nodes: Seq<BrushNiNode>,
    more: Seq<BrushNiNode>,
    brushes: Seq<Vec<BrushFace>>,
    b: int,
    props: Seq<(String, String)>,
)
    requires
        0 <= b,
        brush_placed(nodes, brushes, b, props),
        nodes_before(brushes, b) >= 0,
        nodes_before(brushes, b) + brush_kept_groups(brushes[b]@).len() <= nodes.len(),
    ensures
        brush_placed(nodes + more, brushes, b, props),
{
    assert forall|g: int| 0 <= g < brush_kept_groups(brushes[b]@).len() implies node_ok(
        brushes[b]@,
        #[trigger] brush_kept_groups(brushes[b]@)[g],
        (nodes + more)[nodes_before(brushes, b) + g],
        props,
    ) by {
        assert((nodes + more)[nodes_before(brushes, b) + g] == nodes[nodes_before(brushes, b) + g]);
    }
}

/// How many sub-meshes the first `k` brushes make.
pub open spec fn nodes_before(brushes: Seq<Vec<BrushFace>>, k: int) -> int
    decreases k,
{
    if k <= 0 {
        0
    } else {
        nodes_before(brushes, k - 1) + brush_kept_groups(brushes[k - 1]@).len()
    }
}

proof fn lemma_nodes_before_grows(brushes: Seq<Vec<BrushFace>>, k: int)
    requires
        0 <= k,
    ensures
        nodes_before(brushes, k + 1) == nodes_before(brushes, k) + brush_kept_groups(brushes[k]@).len(),
        nodes_before(brushes, k) >= 0,
    decreases k,
{
    if k > 0 {
        lemma_nodes_before_grows(brushes, k - 1);
    }
}

proof fn lemma_nodes_before_mono(brushes: Seq<Vec<BrushFace>>, j: int, k: int)
    requires
        0 <= j <= k,
    ensures
        nodes_before(brushes, j) <= nodes_before(brushes, k),
    decreases k - j,
{
    if j < k {
        lemma_nodes_before_mono(brushes, j, k - 1);
        lemma_nodes_before_grows(brushes, k - 1);
    }
}

/// The distinct values of a sequence are as many as the elements of its set.
pub proof fn lemma_distinct_count_is_set_size(s: Seq<usize>)
    ensures
        distinct_count(s) == s.to_set().len(),
    decreases s.len(),
{
    broadcast use {vstd::set::group_set_axioms, vstd::seq_lib::seq_to_set_is_finite};

    if s.len() == 0 {
        assert(s.to_set() =~= Set::<usize>::empty());
    } else {
        let p = s.drop_last();
        lemma_distinct_count_is_set_size(p);
        assert(p.to_set().insert(s.last()) =~= s.to_set()) by {
            assert forall|x: usize| s.to_set().contains(x) implies p.to_set().insert(
                s.last(),
            ).contains(x) by {
                let i = choose|i: int| 0 <= i < s.len() && s[i] == x;
                if i < s.len() - 1 {
                    assert(p[i] == x);
                }
            }
            assert forall|x: usize| p.to_set().contains(x) implies s.to_set().contains(x) by {
                let i = choose|i: int| 0 <= i < p.len() && p[i] == x;
                assert(s[i] == x);
            }
            assert(s[s.len() - 1] == s.last());
        }
        if p.contains(s.last()) {
            assert(p.to_set().contains(s.last()));
        } else {
            assert(!p.to_set().contains(s.last()));
        }
    }
}

/// In buffer order, each face's vertices start right after those of the
/// face before it, which takes one slot for each distinct index its
/// triangles use.
pub proof fn lemma_offset_step(tris: Seq<Seq<usize>>, k: int)
    requires
        0 <= k < tris.len(),
    ensures
        face_offset(tris, k + 1) == face_offset(tris, k) + tris[k].to_set().len(),
{
    lemma_distinct_count_is_set_size(tris[k]);
}

/// A liquid face (not skipped, not a clip face) never collides, and is drawn
/// with its triangles twice, once in each winding, whatever its flags.
pub proof fn lemma_liquid_face(f: BrushFace)
    requires
        is_liquid_name(f.texture@),
        !is_skip_name(f.texture@),
        !is_clip_name(f.texture@),
        f.inverted_tri_indices@.len() == f.tri_indices@.len(),
        f.tri_indices@.len() % 3 == 0,
    ensures
        !shows_collision(f),
        shows_visual(f),
        emitted_indices(f).len() == 2 * f.tri_indices@.len(),
        face_triangles(emitted_indices(f), 0).len() == 2 * face_triangles(f.tri_indices@, 0).len(),
{
    let n = f.tri_indices@.len();
    assert((2 * n) / 3 == 2 * (n / 3)) by (nonlinear_arith)
        requires
            n % 3 == 0,
    ;
}

/// A group whose faces all carry a skip texture is neither drawn nor
/// collides, and asks for no emissive material: it makes no sub-mesh.
pub proof fn lemma_skip_group_is_empty(faces: Seq<BrushFace>, group: Seq<usize>)
    requires
        forall|k: int| 0 <= k < group.len() ==> is_skip_name(#[trigger] faces[group[k] as int].texture@),
    ensures
        visual_faces(faces, group) == Seq::<usize>::empty(),
        collision_faces(faces, group) == Seq::<usize>::empty(),
        !group_emissive(faces, group),
        !group_has_faces(faces, group),
    decreases group.len(),
{
    if group.len() > 0 {
        let prev = group.drop_last();
        assert forall|k: int| 0 <= k < prev.len() implies is_skip_name(
            #[trigger] faces[prev[k] as int].texture@,
        ) by {
            assert(prev[k] == group[k]);
        }
        lemma_skip_group_is_empty(faces, prev);
        assert(is_skip_name(faces[group[group.len() - 1] as int].texture@));
    }
}

/// A group whose faces are all both drawn and colliding (no skip, clip,
/// liquid or no-clip face) is drawn with every one of its faces, in order,
/// and collides with the same faces.
pub proof fn lemma_plain_group_is_whole(faces: Seq<BrushFace>, group: Seq<usize>)
    requires
        forall|k: int|
            0 <= k < group.len() ==> shows_visual(#[trigger] faces[group[k] as int])
                && shows_collision(faces[group[k] as int]),
    ensures
        visual_faces(faces, group) == group,
        collision_faces(faces, group) == group,
        group.len() > 0 ==> group_has_faces(faces, group),
    decreases group.len(),
{
    if group.len() > 0 {
        let prev = group.drop_last();
        assert forall|k: int| 0 <= k < prev.len() implies shows_visual(
            #[trigger] faces[prev[k] as int],
        ) && shows_collision(faces[prev[k] as int]) by {
            assert(prev[k] == group[k]);
        }
        lemma_plain_group_is_whole(faces, prev);
        assert(shows_visual(faces[group[group.len() - 1] as int]));
        assert(shows_collision(faces[group[group.len() - 1] as int]));
        assert(prev.push(group.last()) =~= group);
    }
}

} // verus!
