use minidraw::camera::Camera;
use minidraw::error::RenderError;
use minidraw::fixed::FX_ONE;
use minidraw::mat4::Mat4;
use minidraw::mesh::Mesh;
use minidraw::transformable::Transformable;
use minidraw::triangle::Triangle;
use minidraw::vec3::Vec3;
use minidraw::vertex::Vertex;

const HALF_PI: i64 = 102944;

#[test]
fn identity_transform_keeps_points_and_directions() {
    let m = Mat4::identity();
    let p = Vec3::new(123456, -654321, 777);
    assert_eq!(m.transform_point_c(p), Some(p));
    assert_eq!(m.transform_dir_c(p), Some(p));
}

#[test]
fn translation_moves_points_but_not_directions() {
    let t = Mat4::translation(Vec3::new(FX_ONE, 2 * FX_ONE, -FX_ONE));
    let p = Vec3::new(0, 0, 0);
    assert_eq!(t.transform_point_c(p), Some(Vec3::new(FX_ONE, 2 * FX_ONE, -FX_ONE)));
    let d = Vec3::new(FX_ONE, 0, 0);
    assert_eq!(t.transform_dir_c(d), Some(d));
}

#[test]
fn matrix_product_with_identity_changes_nothing() {
    let t = Mat4::translation(Vec3::new(999, -999, 42));
    assert_eq!(t.mul_c(&Mat4::identity()), Some(t));
    assert_eq!(Mat4::identity().mul_c(&t), Some(t));
}

#[test]
fn camera_construction_accepts_sane_parameters() {
    let cam = Camera::new(FX_ONE, HALF_PI, 6554, 655360000);
    assert!(cam.is_ok());
    let cam = cam.unwrap();
    assert_eq!(cam.get_position(), Vec3::new(0, 0, 0));
    // Identity view: the camera faces +z, and the derived direction is the
    // negated third row of the view matrix's linear part.
    assert_eq!(cam.get_direction(), Vec3::new(0, 0, -FX_ONE));
}

#[test]
fn camera_construction_rejects_degenerate_parameters() {
    assert_eq!(Camera::new(0, HALF_PI, 6554, 655360000).err(), Some(RenderError::InvalidProjection));
    assert_eq!(Camera::new(-FX_ONE, HALF_PI, 6554, 655360000).err(), Some(RenderError::InvalidProjection));
    assert_eq!(Camera::new(FX_ONE, 0, 6554, 655360000).err(), Some(RenderError::InvalidProjection));
    // near == far, and far before near.
    assert_eq!(Camera::new(FX_ONE, HALF_PI, 6554, 6554).err(), Some(RenderError::InvalidProjection));
    assert_eq!(Camera::new(FX_ONE, HALF_PI, 6554, 100).err(), Some(RenderError::InvalidProjection));
    assert_eq!(Camera::new(FX_ONE, HALF_PI, 0, 655360000).err(), Some(RenderError::InvalidProjection));
}

#[test]
fn camera_composite_is_projection_for_identity_view() {
    // With an identity view, the composed view-projection equals the
    // projection itself.
    let cam = Camera::new(FX_ONE, HALF_PI, 6554, 655360000).unwrap();
    let vp = cam.get_view_projection_matrix();
    // The perspective for fov pi/2 has a focal scale of about 1.0.
    assert!((vp.m00 - FX_ONE).abs() <= 64);
    assert!((vp.m11 - FX_ONE).abs() <= 64);
    assert_eq!(vp.m32, FX_ONE);
    assert_eq!(vp.m33, 0);
}

#[test]
fn camera_translate_and_rotate_change_the_view() {
    let mut cam = Camera::new(FX_ONE, HALF_PI, 6554, 655360000).unwrap();
    let start = cam.get_view_projection_matrix();
    cam.translate(Vec3::new(FX_ONE, 0, 0));
    let moved = cam.get_view_projection_matrix();
    assert_ne!(moved, start);
    cam.rotate(0, 0, HALF_PI);
    assert_ne!(cam.get_view_projection_matrix(), moved);
}

#[test]
fn camera_scale_is_a_no_op() {
    let mut cam = Camera::new(FX_ONE, HALF_PI, 6554, 655360000).unwrap();
    let before = cam.get_view_projection_matrix();
    cam.scale(3 * FX_ONE);
    assert_eq!(cam.get_view_projection_matrix(), before);
}

#[test]
fn camera_look_at_reorients_the_view() {
    let mut cam = Camera::new(FX_ONE, HALF_PI, 6554, 655360000).unwrap();
    cam.set_position(Vec3::new(25 * FX_ONE, 25 * FX_ONE, 25 * FX_ONE));
    let before = cam.get_view_projection_matrix();
    cam.look_at(Vec3::new(0, 0, 0));
    assert_ne!(cam.get_view_projection_matrix(), before);
    // The derived direction is the negated forward axis: it points from the
    // origin back towards the camera, all three components positive and
    // roughly equal.
    let d = cam.get_direction();
    assert!(d.x > 0 && d.y > 0 && d.z > 0);
    assert!((d.x - d.y).abs() <= 8 && (d.y - d.z).abs() <= 8);
}

#[test]
fn degenerate_look_at_is_ignored() {
    let mut cam = Camera::new(FX_ONE, HALF_PI, 6554, 655360000).unwrap();
    cam.set_position(Vec3::new(FX_ONE, 0, 0));
    let before = cam.get_view_projection_matrix();
    // Aiming at the camera's own position has no forward vector.
    cam.look_at(Vec3::new(FX_ONE, 0, 0));
    assert_eq!(cam.get_view_projection_matrix(), before);
    // Aiming straight along the up axis leaves no side vector.
    cam.look_at(Vec3::new(FX_ONE, 0, 9 * FX_ONE));
    assert_eq!(cam.get_view_projection_matrix(), before);
}

#[test]
fn vertex_transform_preserves_absent_fields() {
    let v = Vertex { position: Vec3::new(5, 6, 7), normal: None, uv: None, colour: None };
    let t = v.transform(&Mat4::identity()).unwrap();
    assert!(t.normal.is_none());
    assert!(t.uv.is_none());
    assert!(t.colour.is_none());
    assert_eq!(t.position, Vec3::new(5, 6, 7));
}

#[test]
fn vertex_transform_carries_the_normal_through_the_linear_part() {
    let v = Vertex {
        position: Vec3::new(0, 0, 0),
        normal: Some(Vec3::new(0, 0, FX_ONE)),
        uv: Some((1, 2)),
        colour: None,
    };
    let t = Mat4::translation(Vec3::new(FX_ONE, FX_ONE, FX_ONE));
    let moved = v.transform(&t).unwrap();
    assert_eq!(moved.position, Vec3::new(FX_ONE, FX_ONE, FX_ONE));
    // The translation leaves a direction unchanged.
    assert_eq!(moved.normal, Some(Vec3::new(0, 0, FX_ONE)));
    assert_eq!(moved.uv, Some((1, 2)));
}

fn white_triangle(a: Vec3, b: Vec3, c: Vec3) -> Triangle {
    Triangle {
        a: Vertex { position: a, normal: None, uv: None, colour: None },
        b: Vertex { position: b, normal: None, uv: None, colour: None },
        c: Vertex { position: c, normal: None, uv: None, colour: None },
        colour: minidraw::colour::Colour::white(),
    }
}

#[test]
fn triangle_transform_moves_all_three_vertices() {
    let tri = white_triangle(Vec3::new(0, 0, 0), Vec3::new(FX_ONE, 0, 0), Vec3::new(0, FX_ONE, 0));
    let t = Mat4::translation(Vec3::new(0, 0, FX_ONE));
    let moved = tri.transform(&t).unwrap();
    assert_eq!(moved.a.position, Vec3::new(0, 0, FX_ONE));
    assert_eq!(moved.b.position, Vec3::new(FX_ONE, 0, FX_ONE));
    assert_eq!(moved.c.position, Vec3::new(0, FX_ONE, FX_ONE));
}

#[test]
fn mesh_from_polygons_keeps_only_valid_triangles() {
    let positions = vec![
        Vec3::new(0, 0, 0),
        Vec3::new(FX_ONE, 0, 0),
        Vec3::new(0, FX_ONE, 0),
        Vec3::new(FX_ONE, FX_ONE, 0),
    ];
    let polys: Vec<Vec<usize>> = vec![
        vec![0, 1, 2],        // kept
        vec![0, 1, 2, 3],     // not a triangle: skipped
        vec![0, 1],           // not a triangle: skipped
        vec![9, 1, 2],        // index out of range: skipped
        vec![1, 2, 3],        // kept
    ];
    let mesh = Mesh::from_polygons(&positions, &polys);
    assert_eq!(mesh.geometry.len(), 2);
    assert_eq!(mesh.geometry[0].a.position, Vec3::new(0, 0, 0));
    assert_eq!(mesh.geometry[1].a.position, Vec3::new(FX_ONE, 0, 0));
    assert_eq!(mesh.geometry[0].colour, minidraw::colour::Colour::white());
}

#[test]
fn mesh_transforms_accumulate_and_never_reset() {
    let positions = vec![Vec3::new(0, 0, 0), Vec3::new(FX_ONE, 0, 0), Vec3::new(0, FX_ONE, 0)];
    let polys: Vec<Vec<usize>> = vec![vec![0, 1, 2]];
    let mut mesh = Mesh::from_polygons(&positions, &polys);
    let ident = mesh.transform;
    mesh.translate(Vec3::new(FX_ONE, 0, 0));
    let once = mesh.transform;
    assert_ne!(once, ident);
    assert_eq!(once.m03, FX_ONE);
    mesh.translate(Vec3::new(FX_ONE, 0, 0));
    assert_eq!(mesh.transform.m03, 2 * FX_ONE);
    mesh.rotate(0, 0, HALF_PI);
    assert_ne!(mesh.transform, once);
    mesh.scale(2 * FX_ONE);
    // The last row stays affine through every composition.
    assert_eq!(
        (mesh.transform.m30, mesh.transform.m31, mesh.transform.m32, mesh.transform.m33),
        (0, 0, 0, FX_ONE),
    );
}
