use vstd::prelude::*;

use crate::color::{hex_spec, Color};
use crate::fragment::Fragment;
use crate::framebuffer::{lemma_index_in_range, lemma_index_injective, pixel_index, FrameView, Framebuffer};
use crate::linalg::normal_transform_spec;
use crate::transform::{screen_position, vertex_shader, Uniforms};
use crate::triangle::{
    covered, emitted, lemma_depth_between, lemma_rasterize_sound, max3, min3,
    rasterize, triangle, MAX_SIDE,
};
use crate::vertex::Vertex;

verus! {

/// The vertex after the vertex stage.
pub open spec fn shaded(v: Vertex, u: Uniforms) -> Vertex {
    Vertex {
        transformed_position: screen_position(u, v.position),
        transformed_normal: normal_transform_spec(u.model_matrix, v.normal),
        ..v
    }
}

/// Every vertex of the mesh after the vertex stage.
pub open spec fn shaded_mesh(vs: Seq<Vertex>, u: Uniforms) -> Seq<Vertex> {
    vs.map_values(|v: Vertex| shaded(v, u))
}

/// Fragments of the first `n` triangles of `tv`, each triangle being three
/// consecutive vertices, in order.
pub open spec fn mesh_fragments(tv: Seq<Vertex>, n: int, width: int, height: int) -> Seq<Fragment>
    decreases n,
{
    if n <= 0 {
        seq![]
    } else {
        mesh_fragments(tv, n - 1, width, height) + rasterize(
            tv[3 * (n - 1)],
            tv[3 * (n - 1) + 1],
            tv[3 * (n - 1) + 2],
            width,
            height,
        )
    }
}

/// The framebuffer after drawing the first `n` fragments, each in its color.
pub open spec fn draw_all(v: FrameView, frags: Seq<Fragment>, colors: Seq<Color>, n: int) -> FrameView
    decreases n,
{
    if n <= 0 {
        v
    } else {
        let prev = draw_all(v, frags, colors, n - 1);
        let f = frags[n - 1];
        prev.with_current(hex_spec(colors[n - 1])).point(f.x as int, f.y as int, f.depth)
    }
}

/// After drawing fragments, the depth stored at an in-bounds pixel is the
/// nearest of the depth stored before and the depths of the fragments drawn
/// there; the pixel keeps its color and depth if none of them was nearer,
/// and otherwise holds the color of a fragment drawn there with that depth.
pub proof fn lemma_draw_all_nearest(
    v: FrameView,
    frags: Seq<Fragment>,
    colors: Seq<Color>,
    n: int,
    x: int,
    y: int,
)
    requires
        v.wf(),
        v.in_bounds(x, y),
        0 <= n <= frags.len(),
        frags.len() == colors.len(),
    ensures
        ({
            let r = draw_all(v, frags, colors, n);
            let i = pixel_index(v.width, x, y);
            &&& r.wf() && r.width == v.width && r.height == v.height
            &&& r.depths[i] <= v.depths[i]
            &&& forall|k: int|
                0 <= k < n && frags[k].x == x && frags[k].y == y ==> r.depths[i] <= (#[trigger] frags[k]).depth
            &&& (r.depths[i] == v.depths[i] && r.colors[i] == v.colors[i]) || exists|k: int|
                0 <= k < n && frags[k].x == x && frags[k].y == y && r.depths[i] == (#[trigger] frags[k]).depth
                    && r.colors[i] == hex_spec(colors[k])
        }),
    decreases n,
{
    lemma_index_in_range(v.width, v.height, x, y);
    if n > 0 {
        lemma_draw_all_nearest(v, frags, colors, n - 1, x, y);
        let prev = draw_all(v, frags, colors, n - 1);
        let r = draw_all(v, frags, colors, n);
        let f = frags[n - 1];
        let i = pixel_index(v.width, x, y);
        let j = pixel_index(v.width, f.x as int, f.y as int);
        let wrote = prev.in_bounds(f.x as int, f.y as int) && f.depth < prev.depths[j];
        if wrote {
            lemma_index_in_range(v.width, v.height, f.x as int, f.y as int);
            if j == i {
                lemma_index_injective(v.width, x, y, f.x as int, f.y as int);
                assert(r.depths[i] == f.depth && r.colors[i] == hex_spec(colors[n - 1]));
            } else {
                assert(r.depths[i] == prev.depths[i] && r.colors[i] == prev.colors[i]);
                if f.x == x && f.y == y {
                    assert(j == i);
                }
            }
        } else {
            assert(r.depths =~= prev.depths && r.colors =~= prev.colors);
            if f.x == x && f.y == y && prev.in_bounds(f.x as int, f.y as int) {
                assert(j == i);
            }
        }
        if !(r.depths[i] == v.depths[i] && r.colors[i] == v.colors[i]) {
            if wrote && j == i {
                assert(0 <= n - 1 < n && frags[n - 1].x == x && frags[n - 1].y == y);
            } else {
                let k = choose|k: int|
                    0 <= k < n - 1 && frags[k].x == x && frags[k].y == y && prev.depths[i] == (#[trigger] frags[k]).depth
                        && prev.colors[i] == hex_spec(colors[k]);
                assert(0 <= k < n && frags[k].x == x && frags[k].y == y && r.depths[i] == frags[k].depth
                    && r.colors[i] == hex_spec(colors[k]));
            }
        }
    }
}

/// `f` is a fragment of triangle `k` of `tv` (vertices `3k`, `3k + 1`, `3k + 2`).
pub open spec fn emitted_by(tv: Seq<Vertex>, k: int, f: Fragment, width: int, height: int) -> bool {
    emitted(tv[3 * k], tv[3 * k + 1], tv[3 * k + 2], f, width, height)
}

/// Every fragment of a mesh is emitted by one of its first `n` triangles:
/// a covered pixel inside the framebuffer, with that triangle's interpolated
/// attributes.
pub proof fn lemma_mesh_fragments_emitted(tv: Seq<Vertex>, n: int, width: int, height: int, i: int)
    requires
        0 <= n,
        3 * n <= tv.len(),
        0 <= width <= MAX_SIDE,
        0 <= height <= MAX_SIDE,
        0 <= i < mesh_fragments(tv, n, width, height).len(),
    ensures
        exists|k: int| 0 <= k < n && #[trigger] emitted_by(tv, k, mesh_fragments(tv, n, width, height)[i], width, height),
    decreases n,
{
    let k = n - 1;
    let p = mesh_fragments(tv, n - 1, width, height);
    let q = rasterize(tv[3 * k], tv[3 * k + 1], tv[3 * k + 2], width, height);
    assert(mesh_fragments(tv, n, width, height) == p + q);
    if i < p.len() {
        lemma_mesh_fragments_emitted(tv, n - 1, width, height, i);
        assert(mesh_fragments(tv, n, width, height)[i] == p[i]);
        let j = choose|j: int| 0 <= j < n - 1 && #[trigger] emitted_by(tv, j, p[i], width, height);
        assert(emitted_by(tv, j, mesh_fragments(tv, n, width, height)[i], width, height));
    } else {
        lemma_rasterize_sound(tv[3 * k], tv[3 * k + 1], tv[3 * k + 2], width, height);
        assert(mesh_fragments(tv, n, width, height)[i] == q[i - p.len()]);
        assert(emitted(tv[3 * k], tv[3 * k + 1], tv[3 * k + 2], q[i - p.len()], width, height));
        assert(emitted_by(tv, k, mesh_fragments(tv, n, width, height)[i], width, height));
    }
}

/// Drawing one triangle's fragments changes the depth only at pixels whose
/// centre lies in the triangle (see `lemma_center_is_combination` for the
/// weights that reproduce it), and the depth stored there lies between the
/// smallest and the largest depth of the three vertices.
pub proof fn lemma_drawn_pixels_inside(
    v: FrameView,
    tv: Seq<Vertex>,
    colors: Seq<Color>,
    x: int,
    y: int,
)
    requires
        v.wf(),
        v.in_bounds(x, y),
        v.width <= MAX_SIDE,
        v.height <= MAX_SIDE,
        tv.len() == 3,
        tv[0].transformed_wf(),
        tv[1].transformed_wf(),
        tv[2].transformed_wf(),
        colors.len() == mesh_fragments(tv, 1, v.width as int, v.height as int).len(),
        ({
            let frags = mesh_fragments(tv, 1, v.width as int, v.height as int);
            let r = draw_all(v, frags, colors, frags.len() as int);
            r.depths[pixel_index(v.width, x, y)] != v.depths[pixel_index(v.width, x, y)]
        }),
    ensures
        ({
            let frags = mesh_fragments(tv, 1, v.width as int, v.height as int);
            let r = draw_all(v, frags, colors, frags.len() as int);
            let d = r.depths[pixel_index(v.width, x, y)] as int;
            let (p0, p1, p2) = (tv[0].transformed_position, tv[1].transformed_position, tv[2].transformed_position);
            &&& covered(tv[0], tv[1], tv[2], x, y)
            &&& min3(p0.z as int, p1.z as int, p2.z as int) <= d <= max3(p0.z as int, p1.z as int, p2.z as int)
        }),
{
    let frags = mesh_fragments(tv, 1, v.width as int, v.height as int);
    lemma_draw_all_nearest(v, frags, colors, frags.len() as int, x, y);
    let r = draw_all(v, frags, colors, frags.len() as int);
    let i = pixel_index(v.width, x, y);
    let k = choose|k: int|
        0 <= k < frags.len() && frags[k].x == x && frags[k].y == y && r.depths[i] == (#[trigger] frags[k]).depth
            && r.colors[i] == hex_spec(colors[k]);
    lemma_mesh_fragments_emitted(tv, 1, v.width as int, v.height as int, k);
    assert(emitted_by(tv, 0, frags[k], v.width as int, v.height as int));
    lemma_depth_between(tv[0], tv[1], tv[2], x, y);
}

/// Runs the vertex stage on every vertex of the mesh.
pub fn transform_vertices(vertex_array: &Vec<Vertex>, uniforms: &Uniforms) -> (r: Vec<Vertex>)
    requires
        uniforms.wf(),
        forall|i: int| 0 <= i < vertex_array@.len() ==> (#[trigger] vertex_array@[i]).wf(),
    ensures
        r@.len() == vertex_array@.len(),
        forall|i: int| 0 <= i < r@.len() ==> #[trigger] r@[i] == shaded(vertex_array@[i], *uniforms),
        forall|i: int| 0 <= i < r@.len() ==> (#[trigger] r@[i]).wf() && r@[i].transformed_wf(),
{
    let mut r: Vec<Vertex> = Vec::new();
    let mut i: usize = 0;
    while i < vertex_array.len()
        invariant
            uniforms.wf(),
            forall|k: int| 0 <= k < vertex_array@.len() ==> (#[trigger] vertex_array@[k]).wf(),
            i <= vertex_array@.len(),
            r@.len() == i,
            forall|k: int| 0 <= k < i ==> #[trigger] r@[k] == shaded(vertex_array@[k], *uniforms),
            forall|k: int| 0 <= k < i ==> (#[trigger] r@[k]).wf() && r@[k].transformed_wf(),
        decreases vertex_array@.len() - i,
    {
        let v = vertex_shader(&vertex_array[i], uniforms);
        r.push(v);
        i = i + 1;
    }
    r
}

/// The vertex, primitive-assembly and rasterization stages: the mesh's
/// vertices are transformed, grouped into triangles by consecutive threes (a
/// trailing incomplete group is ignored), and each triangle is rasterized
/// into a `width` by `height` framebuffer.
pub fn assemble_fragments(vertex_array: &Vec<Vertex>, uniforms: &Uniforms, width: usize, height: usize) -> (r: Vec<
    Fragment,
>)
    requires
        uniforms.wf(),
        forall|i: int| 0 <= i < vertex_array@.len() ==> (#[trigger] vertex_array@[i]).wf(),
        width <= MAX_SIDE,
        height <= MAX_SIDE,
    ensures
        r@ == mesh_fragments(
            shaded_mesh(vertex_array@, *uniforms),
            (vertex_array@.len() / 3) as int,
            width as int,
            height as int,
        ),
        forall|i: int|
            0 <= i < r@.len() ==> (#[trigger] r@[i]).wf() && r@[i].x < width && r@[i].y < height,
{
    let tv = transform_vertices(vertex_array, uniforms);
    let ghost sv = shaded_mesh(vertex_array@, *uniforms);
    assert(tv@ =~= sv);
    let len: usize = tv.len();
    let n: usize = len / 3;
    let mut r: Vec<Fragment> = Vec::new();
    let mut k: usize = 0;
    while k < n
        invariant
            tv@ == sv,
            len == tv@.len(),
            n == len / 3,
            k <= n,
            width <= MAX_SIDE,
            height <= MAX_SIDE,
            forall|i: int| 0 <= i < tv@.len() ==> (#[trigger] tv@[i]).wf() && tv@[i].transformed_wf(),
            r@ == mesh_fragments(sv, k as int, width as int, height as int),
        decreases n - k,
    {
        assert(3 * k + 2 < tv@.len());
        let mut tri = triangle(&tv[3 * k], &tv[3 * k + 1], &tv[3 * k + 2], width, height);
        r.append(&mut tri);
        k = k + 1;
    }
    proof {
        assert forall|i: int| 0 <= i < r@.len() implies (#[trigger] r@[i]).wf() && r@[i].x < width
            && r@[i].y < height by {
            lemma_mesh_fragments_emitted(sv, n as int, width as int, height as int, i);
            let k = choose|k: int| 0 <= k < n && #[trigger] emitted_by(sv, k, r@[i], width as int, height as int);
        }
    }
    r
}

/// The framebuffer write stage: each fragment inside the framebuffer is drawn
/// in its color, subject to the depth test; fragments outside it are dropped.
pub fn render(framebuffer: &mut Framebuffer, fragments: &Vec<Fragment>, colors: &Vec<Color>)
    requires
        old(framebuffer).wf(),
        fragments@.len() == colors@.len(),
    ensures
        final(framebuffer).wf(),
        final(framebuffer)@ == draw_all(old(framebuffer)@, fragments@, colors@, fragments@.len() as int),
{
    let mut i: usize = 0;
    while i < fragments.len()
        invariant
            framebuffer.wf(),
            fragments@.len() == colors@.len(),
            i <= fragments@.len(),
            framebuffer@ == draw_all(old(framebuffer)@, fragments@, colors@, i as int),
        decreases fragments@.len() - i,
    {
        let f = &fragments[i];
        framebuffer.set_current_color(colors[i].to_hex());
        framebuffer.point(f.x, f.y, f.depth);
        i = i + 1;
    }
}

} // verus!
