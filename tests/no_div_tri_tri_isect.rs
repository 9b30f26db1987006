use intersection_wasm::{
    mesh_mesh_isect, no_div_tri_tri_isect, triangles_intersect, IsectError, Point3, DEFAULT_EPSILON,
};

// Coordinates are on an integer grid of 1/10000 units; signed distances
// scale with the cube of the grid, so a tolerance of 1e-6 becomes 10^6.
const EPSILON: u64 = 1_000_000;

fn p(x: i16, y: i16, z: i16) -> Point3 {
    Point3 { x, y, z }
}

#[test]
fn no_div_tri_tri_isect_separated() {
    let v0 = [0, 0, -10000];
    let v1 = [0, 0, 0];
    let v2 = [0, 17510, 0];

    let u0 = [-5000, 8755, 5000];
    let u1 = [5000, 8755, 15000];
    let u2 = [5000, 8755, 5000];

    assert_eq!(
        no_div_tri_tri_isect(&v0, &v1, &v2, &u0, &u1, &u2, Some(EPSILON)),
        Ok(false)
    );
}

#[test]
fn no_div_tri_tri_isect_intersected() {
    let v0 = [0, 0, -10000];
    let v1 = [0, 0, 0];
    let v2 = [0, 17510, 0];

    let u0 = [-5000, 8755, -5000];
    let u1 = [5000, 8755, 5000];
    let u2 = [5000, 8755, -5000];

    assert_eq!(
        no_div_tri_tri_isect(&v0, &v1, &v2, &u0, &u1, &u2, Some(EPSILON)),
        Ok(true)
    );
}

#[test]
fn short_coordinate_array_is_refused() {
    let a = [0, 0, 0];
    let short = [1, 2];
    assert_eq!(
        no_div_tri_tri_isect(&a, &a, &a, &a, &a, &short, None),
        Err(IsectError::InvalidInput)
    );
}

#[test]
fn longer_arrays_use_first_three_values() {
    let v0 = [0, 0, 0, 99];
    let v1 = [10, 0, 0, 99];
    let v2 = [0, 10, 0, 99];
    let u0 = [2, 2, -5, 7];
    let u1 = [2, 2, 5, 7];
    let u2 = [3, 3, 5, 7];
    assert_eq!(no_div_tri_tri_isect(&v0, &v1, &v2, &u0, &u1, &u2, None), Ok(true));
}

#[test]
fn far_apart_triangles_do_not_intersect() {
    let r = triangles_intersect(
        p(0, 0, 0),
        p(10, 0, 0),
        p(0, 10, 0),
        p(100, 100, 100),
        p(110, 100, 100),
        p(100, 110, 105),
        None,
    );
    assert!(!r);
}

#[test]
fn piercing_triangle_intersects() {
    let r = triangles_intersect(
        p(0, 0, 0),
        p(10, 0, 0),
        p(0, 10, 0),
        p(2, 2, -5),
        p(2, 2, 5),
        p(3, 3, 5),
        None,
    );
    assert!(r);
}

#[test]
fn permuted_vertices_give_same_result() {
    let u = [p(2, 2, -5), p(2, 2, 5), p(3, 3, 5)];
    let a = triangles_intersect(p(0, 0, 0), p(10, 0, 0), p(0, 10, 0), u[0], u[1], u[2], None);
    let b = triangles_intersect(p(10, 0, 0), p(0, 10, 0), p(0, 0, 0), u[0], u[1], u[2], None);
    let c = triangles_intersect(p(0, 0, 0), p(0, 10, 0), p(10, 0, 0), u[0], u[2], u[1], None);
    assert!(a);
    assert_eq!(a, b);
    assert_eq!(a, c);
}

#[test]
fn shared_vertex_counts_as_intersection() {
    let r = triangles_intersect(
        p(0, 0, 0),
        p(10, 0, 0),
        p(0, 10, 0),
        p(10, 0, 0),
        p(20, 0, 5),
        p(20, 5, -5),
        None,
    );
    assert!(r);
}

#[test]
fn edge_touching_counts_as_intersection() {
    let r = triangles_intersect(
        p(0, 0, 0),
        p(10, 0, 0),
        p(0, 10, 0),
        p(5, 5, 0),
        p(5, 5, 10),
        p(9, 9, 10),
        None,
    );
    assert!(r);
}

#[test]
fn coincident_triangles_intersect() {
    let r = triangles_intersect(
        p(0, 0, 0),
        p(10, 0, 0),
        p(0, 10, 0),
        p(0, 0, 0),
        p(10, 0, 0),
        p(0, 10, 0),
        None,
    );
    assert!(r);
}

#[test]
fn coplanar_containment_either_way() {
    let big = [p(0, 0, 0), p(10, 0, 0), p(0, 10, 0)];
    let small = [p(1, 1, 0), p(3, 1, 0), p(1, 3, 0)];
    assert!(triangles_intersect(big[0], big[1], big[2], small[0], small[1], small[2], None));
    assert!(triangles_intersect(small[0], small[1], small[2], big[0], big[1], big[2], None));
}

#[test]
fn coplanar_disjoint_triangles_do_not_intersect() {
    let r = triangles_intersect(
        p(0, 0, 0),
        p(10, 0, 0),
        p(0, 10, 0),
        p(20, 20, 0),
        p(30, 20, 0),
        p(20, 30, 0),
        None,
    );
    assert!(!r);
}

#[test]
fn tolerance_snaps_near_touching_vertex() {
    let v = [p(0, 0, 0), p(10, 0, 0), p(0, 10, 0)];
    let u = [p(2, 2, 1), p(8, 2, 1), p(2, 8, 9)];
    assert!(!triangles_intersect(v[0], v[1], v[2], u[0], u[1], u[2], None));
    assert!(triangles_intersect(v[0], v[1], v[2], u[0], u[1], u[2], Some(101)));
}

#[test]
fn degenerate_point_triangles_give_false() {
    let q = p(1, 1, 1);
    assert!(!triangles_intersect(q, q, q, q, q, q, None));
}

#[test]
fn extreme_coordinates_do_not_overflow() {
    let r = triangles_intersect(
        p(-32768, -32768, -32768),
        p(32767, -32768, 32767),
        p(-32768, 32767, 32767),
        p(32767, 32767, -32768),
        p(-32768, 32767, 32767),
        p(32767, -32768, 32767),
        None,
    );
    assert!(r);
}

#[test]
fn single_triangle_mesh_meets_itself() {
    let m = [0, 0, 0, 10, 0, 0, 0, 10, 0];
    assert_eq!(mesh_mesh_isect(&m, &m, None), Ok(true));
}

#[test]
fn empty_mesh_meets_nothing() {
    let m = [0, 0, 0, 10, 0, 0, 0, 10, 0];
    let empty: [i16; 0] = [];
    assert_eq!(mesh_mesh_isect(&empty, &m, None), Ok(false));
    assert_eq!(mesh_mesh_isect(&m, &empty, Some(5)), Ok(false));
}

#[test]
fn mesh_finds_the_intersecting_pair() {
    let m1 = [
        100, 100, 100, 110, 100, 100, 100, 110, 105, // far away
        0, 0, 0, 10, 0, 0, 0, 10, 0,
    ];
    let m2 = [
        -50, -50, -50, -40, -50, -50, -50, -40, -50, // far away
        2, 2, -5, 2, 2, 5, 3, 3, 5,
    ];
    assert_eq!(mesh_mesh_isect(&m1, &m2, None), Ok(true));
    assert_eq!(mesh_mesh_isect(&m1[..9], &m2, None), Ok(false));
    assert_eq!(mesh_mesh_isect(&m1, &m2[..9], Some(DEFAULT_EPSILON)), Ok(false));
}

#[test]
fn mesh_length_not_multiple_of_nine_is_refused() {
    let m = [0, 0, 0, 10, 0, 0, 0, 10, 0];
    assert_eq!(mesh_mesh_isect(&m[..8], &m, None), Err(IsectError::InvalidInput));
    assert_eq!(mesh_mesh_isect(&m, &m[..3], None), Err(IsectError::InvalidInput));
}
