use minidraw::camera::Camera;
use minidraw::colour::Colour;
use minidraw::error::RenderError;
use minidraw::fixed::FX_ONE;
use minidraw::mesh::Mesh;
use minidraw::raster::DEPTH_SENTINEL;
use minidraw::renderer::Renderer;
use minidraw::renderer_config::RendererConfig;
use minidraw::vec3::Vec3;

const HALF_PI: i64 = 102944;

fn px(buf: &[u8], w: u32, x: u32, y: u32) -> (u8, u8, u8, u8) {
    let i = ((y * w + x) * 4) as usize;
    (buf[i], buf[i + 1], buf[i + 2], buf[i + 3])
}

fn count_not(buf: &[u8], clear: (u8, u8, u8, u8)) -> usize {
    let mut n = 0;
    for p in buf.chunks(4) {
        if (p[0], p[1], p[2], p[3]) != clear {
            n += 1;
        }
    }
    n
}

/// A triangle in the plane z = 1 facing the default camera at the origin.
fn facing_triangle() -> (Vec3, Vec3, Vec3) {
    (
        Vec3::new(0, -FX_ONE / 2, FX_ONE),
        Vec3::new(0, FX_ONE / 2, FX_ONE),
        Vec3::new(FX_ONE / 2, 0, FX_ONE),
    )
}

#[test]
fn renderer_construction_rejects_bad_dimensions() {
    assert_eq!(
        Renderer::new(0, 64, RendererConfig::default()).err(),
        Some(RenderError::InvalidDimensions),
    );
    assert_eq!(
        Renderer::new(64, 0x8001, RendererConfig::default()).err(),
        Some(RenderError::InvalidDimensions),
    );
    let mut bad_fov = RendererConfig::default();
    bad_fov.field_of_view = 0;
    assert_eq!(Renderer::new(64, 64, bad_fov).err(), Some(RenderError::InvalidProjection));
}

#[test]
fn new_renderer_starts_cleared() {
    let mut config = RendererConfig::default();
    config.clear_colour = Colour::new(7, 8, 9, 255);
    let r = Renderer::new(16, 8, config).unwrap();
    assert_eq!(r.get_width(), 16);
    assert_eq!(r.get_height(), 8);
    let buf = r.get_colour_buffer_raw();
    assert_eq!(buf.len(), 16 * 8 * 4);
    for p in buf.chunks(4) {
        assert_eq!((p[0], p[1], p[2], p[3]), (7, 8, 9, 255));
    }
    for d in r.get_depth_buffer_raw() {
        assert_eq!(*d, DEPTH_SENTINEL);
    }
}

#[test]
fn visible_triangle_fills_pixels_near_its_projection() {
    let mut r = Renderer::new(64, 64, RendererConfig::default()).unwrap();
    let (a, b, c) = facing_triangle();
    r.triangle(a, b, c, Colour::new(255, 255, 255, 123));
    let buf = r.get_colour_buffer_raw();
    let drawn = count_not(&buf, (0, 0, 0, 255));
    assert!(drawn > 0);
    // Every drawn pixel lies in the projected triangle's neighbourhood:
    // roughly x in [32, 48], y in [16, 48].
    for y in 0..64u32 {
        for x in 0..64u32 {
            if px(&buf, 64, x, y) != (0, 0, 0, 255) {
                assert!((31..=49).contains(&x) && (15..=49).contains(&y),
                    "stray pixel at {} {}", x, y);
            }
        }
    }
}

#[test]
fn filled_pixel_count_approximates_the_projected_area() {
    let mut r = Renderer::new(64, 64, RendererConfig::default()).unwrap();
    let (a, b, c) = facing_triangle();
    r.triangle(a, b, c, Colour::new(255, 255, 255, 123));
    let drawn = count_not(&r.get_colour_buffer_raw(), (0, 0, 0, 255)) as f64;
    // Project the vertices with the camera's own matrix and compute the
    // analytic screen-space area and perimeter.
    let vp = r.get_camera().get_view_projection_matrix();
    let screen = |p: Vec3| -> (f64, f64) {
        let q = vp.transform_point_c(p).unwrap();
        (
            ((q.x as f64 / 65536.0) + 1.0) / 2.0 * 64.0,
            ((q.y as f64 / 65536.0) + 1.0) / 2.0 * 64.0,
        )
    };
    let (ax, ay) = screen(a);
    let (bx, by) = screen(b);
    let (cx, cy) = screen(c);
    let area = 0.5 * ((bx - ax) * (cy - ay) - (by - ay) * (cx - ax)).abs();
    let perim = ((bx - ax).powi(2) + (by - ay).powi(2)).sqrt()
        + ((cx - bx).powi(2) + (cy - by).powi(2)).sqrt()
        + ((ax - cx).powi(2) + (ay - cy).powi(2)).sqrt();
    assert!(area > 50.0);
    assert!((drawn - area).abs() <= perim + 8.0,
        "drawn {} analytic {} perimeter {}", drawn, area, perim);
}

#[test]
fn triangle_behind_the_camera_writes_nothing() {
    let mut r = Renderer::new(64, 64, RendererConfig::default()).unwrap();
    r.triangle(
        Vec3::new(0, -FX_ONE, -FX_ONE),
        Vec3::new(0, FX_ONE, -FX_ONE),
        Vec3::new(FX_ONE, 0, -FX_ONE),
        Colour::white(),
    );
    assert_eq!(count_not(&r.get_colour_buffer_raw(), (0, 0, 0, 255)), 0);
    for d in r.get_depth_buffer_raw() {
        assert_eq!(*d, DEPTH_SENTINEL);
    }
}

#[test]
fn backfacing_triangle_is_culled_and_writes_nothing() {
    let mut r = Renderer::new(64, 64, RendererConfig::default()).unwrap();
    let (a, b, c) = facing_triangle();
    // The same triangle with two vertices swapped faces away at every
    // vertex and is discarded before any pixel work.
    r.triangle(a, c, b, Colour::white());
    assert_eq!(count_not(&r.get_colour_buffer_raw(), (0, 0, 0, 255)), 0);
    for d in r.get_depth_buffer_raw() {
        assert_eq!(*d, DEPTH_SENTINEL);
    }
}

#[test]
fn drawing_the_same_triangle_twice_changes_nothing() {
    let mut r = Renderer::new(64, 64, RendererConfig::default()).unwrap();
    let (a, b, c) = facing_triangle();
    r.triangle(a, b, c, Colour::new(20, 30, 40, 123));
    let colour_once = r.get_colour_buffer_raw();
    let depth_once = r.get_depth_buffer_raw().clone();
    r.triangle(a, b, c, Colour::new(20, 30, 40, 123));
    assert_eq!(r.get_colour_buffer_raw(), colour_once);
    assert_eq!(r.get_depth_buffer_raw(), &depth_once);
}

#[test]
fn depth_test_is_order_independent() {
    // A far triangle and a near one that overlap in the middle of the
    // screen; the shaded channels go black here, so the alphas tell the two
    // apart.
    let far = (
        Vec3::new(-FX_ONE, -FX_ONE, 2 * FX_ONE),
        Vec3::new(-FX_ONE, FX_ONE, 2 * FX_ONE),
        Vec3::new(FX_ONE, 0, 2 * FX_ONE),
    );
    let near = (
        Vec3::new(0, -FX_ONE / 2, FX_ONE),
        Vec3::new(0, FX_ONE / 2, FX_ONE),
        Vec3::new(FX_ONE / 2, 0, FX_ONE),
    );
    let ca = Colour::new(255, 0, 0, 10);
    let cb = Colour::new(0, 0, 255, 200);

    let mut r1 = Renderer::new(64, 64, RendererConfig::default()).unwrap();
    r1.triangle(far.0, far.1, far.2, ca);
    r1.triangle(near.0, near.1, near.2, cb);

    let mut r2 = Renderer::new(64, 64, RendererConfig::default()).unwrap();
    r2.triangle(near.0, near.1, near.2, cb);
    r2.triangle(far.0, far.1, far.2, ca);

    assert_eq!(r1.get_colour_buffer_raw(), r2.get_colour_buffer_raw());
    assert_eq!(r1.get_depth_buffer_raw(), r2.get_depth_buffer_raw());

    // A pixel well inside the near triangle carries its alpha either way.
    let buf = r1.get_colour_buffer_raw();
    let centre = px(&buf, 64, 37, 32);
    assert_eq!(centre.3, 200);
    // A pixel covered only by the far triangle keeps the far alpha.
    let left = px(&buf, 64, 20, 32);
    assert_eq!(left.3, 10);
}

#[test]
fn clear_restores_the_configured_colour_and_the_far_sentinel() {
    let mut config = RendererConfig::default();
    config.clear_colour = Colour::new(11, 22, 33, 255);
    let mut r = Renderer::new(64, 64, config).unwrap();
    let (a, b, c) = facing_triangle();
    r.triangle(a, b, c, Colour::new(200, 200, 200, 99));
    assert!(count_not(&r.get_colour_buffer_raw(), (11, 22, 33, 255)) > 0);
    r.clear();
    assert_eq!(count_not(&r.get_colour_buffer_raw(), (11, 22, 33, 255)), 0);
    for d in r.get_depth_buffer_raw() {
        assert_eq!(*d, DEPTH_SENTINEL);
    }
    // The sentinel loses the very first depth test: the next draw lands.
    r.triangle(a, b, c, Colour::new(200, 200, 200, 99));
    assert!(count_not(&r.get_colour_buffer_raw(), (11, 22, 33, 255)) > 0);
}

#[test]
fn wireframe_mode_draws_edges_and_never_touches_depth() {
    let positions = vec![
        Vec3::new(0, -FX_ONE / 2, FX_ONE),
        Vec3::new(0, FX_ONE / 2, FX_ONE),
        Vec3::new(FX_ONE / 2, 0, FX_ONE),
    ];
    let polys: Vec<Vec<usize>> = vec![vec![0, 1, 2]];
    let mesh = Mesh::from_polygons(&positions, &polys);

    // A clear colour distinct from both the unshaded white edges and the
    // black the lighting gives this face.
    let mut wire_config = RendererConfig::default_wireframe();
    wire_config.clear_colour = Colour::new(9, 9, 9, 255);
    let mut wire = Renderer::new(64, 64, wire_config).unwrap();
    wire.draw(&mesh);
    let wire_buf = wire.get_colour_buffer_raw();
    let wire_count = count_not(&wire_buf, (9, 9, 9, 255));
    assert!(wire_count > 0);
    for d in wire.get_depth_buffer_raw() {
        assert_eq!(*d, DEPTH_SENTINEL);
    }

    let mut fill_config = RendererConfig::default();
    fill_config.clear_colour = Colour::new(9, 9, 9, 255);
    let mut fill = Renderer::new(64, 64, fill_config).unwrap();
    fill.draw(&mesh);
    let fill_buf = fill.get_colour_buffer_raw();
    let fill_count = count_not(&fill_buf, (9, 9, 9, 255));
    // The filled area strictly exceeds the three edges alone.
    assert!(fill_count > wire_count, "fill {} wire {}", fill_count, wire_count);
    assert_ne!(wire_buf, fill_buf);
    // Wireframe pixels carry the flat colour unshaded: pure white.
    for y in 0..64u32 {
        for x in 0..64u32 {
            let p = px(&wire_buf, 64, x, y);
            assert!(p == (9, 9, 9, 255) || p == (255, 255, 255, 255));
        }
    }
}

#[test]
fn camera_at_the_corner_sees_a_triangle_at_the_origin() {
    // A camera at (25, 25, 25) aimed at the origin with up +z, a right-angle
    // field of view and very near/far planes, over an axis-aligned triangle
    // around the origin: a compact lit region near the image centre, and an
    // untouched border.
    let mut r = Renderer::new(512, 512, RendererConfig::default()).unwrap();
    {
        let cam = r.get_camera_mut();
        *cam = Camera::new(FX_ONE, HALF_PI, 1, 6553600000).unwrap();
        cam.set_position(Vec3::new(25 * FX_ONE, 25 * FX_ONE, 25 * FX_ONE));
        cam.look_at(Vec3::new(0, 0, 0));
    }
    r.triangle(
        Vec3::new(FX_ONE, 0, 0),
        Vec3::new(0, FX_ONE, 0),
        Vec3::new(0, 0, FX_ONE),
        Colour::white(),
    );
    let buf = r.get_colour_buffer_raw();
    let drawn = count_not(&buf, (0, 0, 0, 255));
    assert!(drawn > 0, "nothing was drawn");
    // The face normal is along (-1, -1, -1), so the exact flat shade of a
    // white triangle under the fixed light comes out as grey 224.
    for y in 0..512u32 {
        for x in 0..512u32 {
            let p = px(&buf, 512, x, y);
            if p != (0, 0, 0, 255) {
                assert_eq!(p, (224, 224, 224, 255));
                let dx = x as i64 - 256;
                let dy = y as i64 - 256;
                assert!(dx.abs() < 128 && dy.abs() < 128, "stray pixel at {} {}", x, y);
            }
        }
    }
}

#[test]
fn covered_pixels_of_a_constant_depth_face_store_its_exact_depth() {
    // In the plane z = 1 the interpolated reverse depth is constant: with
    // the default planes it comes out as exactly 6554 at every covered
    // pixel, and the sentinel everywhere else.
    let mut r = Renderer::new(64, 64, RendererConfig::default()).unwrap();
    let (a, b, c) = facing_triangle();
    r.triangle(a, b, c, Colour::new(1, 2, 3, 4));
    let buf = r.get_colour_buffer_raw();
    let depth = r.get_depth_buffer_raw();
    let mut covered = 0;
    for y in 0..64u32 {
        for x in 0..64u32 {
            let i = (y * 64 + x) as usize;
            if px(&buf, 64, x, y) != (0, 0, 0, 255) {
                assert_eq!(depth[i], 6554);
                covered += 1;
            } else {
                assert_eq!(depth[i], minidraw::raster::DEPTH_SENTINEL);
            }
        }
    }
    assert!(covered > 0);
}

#[test]
fn default_configurations_carry_the_documented_values() {
    let c = RendererConfig::default();
    assert!(!c.wireframe);
    assert_eq!(c.clear_colour, Colour::black());
    assert_eq!(c.field_of_view, HALF_PI);
    let w = RendererConfig::default_wireframe();
    assert!(w.wireframe);
    assert_eq!(w.clear_colour, c.clear_colour);
    assert_eq!(w.field_of_view, c.field_of_view);
}

#[test]
fn coplanar_triangles_sharing_an_edge_never_double_draw_it() {
    // Two triangles in the plane z = 1 sharing the vertical edge x = 0,
    // wound consistently (the shared edge runs in opposite directions).
    // With exclusive barycentric bounds, the pixels exactly on that edge
    // belong to neither.
    let a = Vec3::new(0, -FX_ONE / 2, FX_ONE);
    let b = Vec3::new(0, FX_ONE / 2, FX_ONE);
    let c = Vec3::new(FX_ONE / 2, 0, FX_ONE);
    let d = Vec3::new(-FX_ONE / 2, 0, FX_ONE);
    let mut r = Renderer::new(64, 64, RendererConfig::default()).unwrap();
    r.triangle(a, b, c, Colour::new(255, 0, 0, 100));
    r.triangle(b, a, d, Colour::new(0, 255, 0, 200));
    let buf = r.get_colour_buffer_raw();
    let mut right = 0;
    let mut left = 0;
    for y in 0..64u32 {
        for x in 0..64u32 {
            let p = px(&buf, 64, x, y);
            if p.3 == 100 {
                right += 1;
            }
            if p.3 == 200 {
                left += 1;
            }
        }
    }
    assert!(right > 0 && left > 0);
    // The shared edge projects exactly onto the pixel column x = 32,
    // y from 16 to 48: none of those pixels is drawn by either triangle.
    for y in 17..48u32 {
        assert_eq!(px(&buf, 64, 32, y), (0, 0, 0, 255), "edge pixel drawn at y {}", y);
    }
}

#[test]
fn line_draws_its_projected_segment_only() {
    let mut r = Renderer::new(64, 64, RendererConfig::default()).unwrap();
    // A vertical segment on x = 0 in the plane z = 1: column 32, y 16..48.
    r.line(
        Vec3::new(0, -FX_ONE / 2, FX_ONE),
        Vec3::new(0, FX_ONE / 2, FX_ONE),
        Colour::new(5, 6, 7, 8),
    );
    let buf = r.get_colour_buffer_raw();
    let drawn = count_not(&buf, (0, 0, 0, 255));
    assert_eq!(drawn, 33);
    for y in 16..=48u32 {
        assert_eq!(px(&buf, 64, 32, y), (5, 6, 7, 8));
    }
    // Lines never touch the depth buffer.
    for d in r.get_depth_buffer_raw() {
        assert_eq!(*d, DEPTH_SENTINEL);
    }
}
