//! The per-frame rendering pipeline: vertex shading, primitive assembly,
//! rasterization, fragment shading and depth-tested writes, in that
//! order, with the framebuffer threaded through as an exclusively owned
//! resource.

use crate::fragment::Fragment;
use crate::framebuffer::{point_spec, FbState, Framebuffer};
use crate::fx::COORD_LIMIT;
use crate::geom::vec3_bounded;
use crate::light::Light;
use crate::shaders::{
    fragment_color_spec, fragment_shader, vertex_shader, vertex_shader_ok, vertex_shader_spec,
    Uniforms,
};
use crate::triangle::{frag_bounded, raster_ok, tri_frags, triangle};
use crate::vertex::{ShadedVertex, Vertex};
use vstd::prelude::*;

verus! {

/// The vertex shader mapped over the input stream.
pub open spec fn shade_seq(vs: Seq<Vertex>, u: Uniforms) -> Seq<ShadedVertex> {
    Seq::new(vs.len(), |i: int| vertex_shader_spec(vs[i], u))
}

/// Fold one triangle's fragments through the fragment shader and the
/// depth-tested point write, in emission order.
pub open spec fn draw_frags(st: FbState, frags: Seq<Fragment>, l: Light) -> FbState
    decreases frags.len(),
{
    if frags.len() == 0 {
        st
    } else {
        draw_frags(
            point_spec(
                st,
                frags[0].x as int,
                frags[0].y as int,
                frags[0].depth,
                fragment_color_spec(frags[0], l),
            ),
            frags.drop_first(),
            l,
        )
    }
}

/// Fold the triangles assembled from consecutive vertex triples, from the
/// `k`-th on; a trailing group of fewer than three vertices is dropped
/// silently, as triangle-list assembly does.
pub open spec fn draw_tris(st: FbState, sv: Seq<ShadedVertex>, k: nat, w: int, h: int, l: Light) -> FbState
    decreases sv.len() - 3 * k,
{
    if 3 * k + 2 < sv.len() {
        draw_tris(
            draw_frags(
                st,
                tri_frags(sv[3 * k as int], sv[3 * k as int + 1], sv[3 * k as int + 2], w, h),
                l,
            ),
            sv,
            k + 1,
            w,
            h,
            l,
        )
    } else {
        st
    }
}

/// The frame a render produces: every input vertex shaded, consecutive
/// triples assembled into triangles, each triangle rasterized, each
/// fragment shaded and depth-tested into the framebuffer.
pub open spec fn render_spec(st: FbState, u: Uniforms, vs: Seq<Vertex>, l: Light) -> FbState {
    draw_tris(st, shade_seq(vs, u), 0, st.width as int, st.height as int, l)
}

/// A vertex shader output within the rasterizer's coordinate bound.
pub open spec fn shaded_ok(sv: ShadedVertex) -> bool {
    &&& vec3_bounded(sv.position, COORD_LIMIT as int)
    &&& vec3_bounded(sv.normal, COORD_LIMIT as int)
    &&& vec3_bounded(sv.world_position, COORD_LIMIT as int)
}

/// The machine limits under which a frame's arithmetic is exact: every
/// vertex passes the vertex shader's limits and lands within the
/// rasterizer's coordinate bound, and the light is bounded.
pub open spec fn render_ok(u: Uniforms, vs: Seq<Vertex>, l: Light) -> bool {
    &&& vec3_bounded(l.position, COORD_LIMIT as int)
    &&& forall|i: int| 0 <= i < vs.len() ==> vertex_shader_ok(#[trigger] vs[i], u)
    &&& forall|i: int| 0 <= i < vs.len() ==> shaded_ok(vertex_shader_spec(#[trigger] vs[i], u))
}

/// Render one frame. The framebuffer is mutated only through its
/// depth-tested `point` operation, so triangle submission order cannot
/// override a nearer fragment.
pub fn render(fb: &mut Framebuffer, u: &Uniforms, vertex_array: &Vec<Vertex>, light: &Light)
    requires
        old(fb).wf(),
        vertex_array@.len() <= 0x4000_0000,
        render_ok(*u, vertex_array@, *light),
    ensures
        final(fb).wf(),
        final(fb)@ == render_spec(old(fb)@, *u, vertex_array@, *light),
{
    let ghost sv = shade_seq(vertex_array@, *u);
    let ghost w = old(fb)@.width as int;
    let ghost h = old(fb)@.height as int;
    let ghost target = render_spec(old(fb)@, *u, vertex_array@, *light);

    // Stage 1: vertex shading, one output record per input vertex.
    let mut shaded: Vec<ShadedVertex> = Vec::new();
    let mut i: usize = 0;
    while i < vertex_array.len()
        invariant
            render_ok(*u, vertex_array@, *light),
            i <= vertex_array.len(),
            shaded@.len() == i,
            forall|j: int| 0 <= j < i ==> shaded@[j] == vertex_shader_spec(vertex_array@[j], *u),
        decreases vertex_array.len() - i,
    {
        let s = vertex_shader(&vertex_array[i], u);
        shaded.push(s);
        i = i + 1;
    }
    proof {
        assert(shaded@ =~= sv);
        assert forall|j: int| 0 <= j < sv.len() implies #[trigger] sv[j] == vertex_shader_spec(
            vertex_array@[j],
            *u,
        ) by {
            assert(sv[j] == shaded@[j]);
        }
    }

    // Stages 2 to 4: assemble consecutive triples, rasterize each
    // triangle, shade each fragment, write through the depth test.
    let mut k: usize = 0;
    while 3 * k + 2 < shaded.len()
        invariant
            render_ok(*u, vertex_array@, *light),
            fb.wf(),
            shaded@ == sv,
            forall|j: int|
                0 <= j < sv.len() ==> #[trigger] sv[j] == vertex_shader_spec(
                    vertex_array@[j],
                    *u,
                ),
            sv.len() == vertex_array@.len(),
            sv.len() <= 0x4000_0000,
            3 * k <= sv.len(),
            fb@.width as int == w,
            fb@.height as int == h,
            draw_tris(fb@, sv, k as nat, w, h, *light) == target,
        decreases shaded.len() - 3 * k,
    {
        let a = shaded[3 * k];
        let b = shaded[3 * k + 1];
        let c = shaded[3 * k + 2];
        proof {
            assert(a == sv[3 * k as int]);
            assert(sv[3 * k as int] == vertex_shader_spec(vertex_array@[3 * k as int], *u));
            assert(b == vertex_shader_spec(vertex_array@[3 * k as int + 1], *u));
            assert(c == vertex_shader_spec(vertex_array@[3 * k as int + 2], *u));
            assert(shaded_ok(a) && shaded_ok(b) && shaded_ok(c));
            assert(raster_ok(a, b, c));
        }
        let frags = triangle(&a, &b, &c, fb.width(), fb.height());
        let ghost fb0 = fb@;
        proof {
            assert(frags@.skip(0) =~= frags@);
        }
        let mut j: usize = 0;
        while j < frags.len()
            invariant
                render_ok(*u, vertex_array@, *light),
                fb.wf(),
                j <= frags.len(),
                fb@.width as int == w,
                fb@.height as int == h,
                forall|t: int| 0 <= t < frags@.len() ==> frag_bounded(#[trigger] frags@[t]),
                draw_frags(fb@, frags@.skip(j as int), *light) == draw_frags(fb0, frags@, *light),
            decreases frags.len() - j,
        {
            let f = frags[j];
            let color = fragment_shader(&f, light);
            proof {
                assert(frags@.skip(j as int).len() > 0);
                assert(frags@.skip(j as int)[0] == frags@[j as int]);
                assert(frags@.skip(j as int).drop_first() =~= frags@.skip(j as int + 1));
            }
            fb.point(f.x, f.y, f.depth, color);
            j = j + 1;
        }
        proof {
            assert(frags@.skip(frags@.len() as int) =~= Seq::<Fragment>::empty());
            assert(fb@ == draw_frags(fb0, tri_frags(a, b, c, w, h), *light));
            assert(draw_tris(fb0, sv, k as nat, w, h, *light) == draw_tris(
                fb@,
                sv,
                k as nat + 1,
                w,
                h,
                *light,
            ));
        }
        k = k + 1;
    }
}

} // verus!
