//! Fan triangulation of a polygon around a pivot vertex.
use vstd::prelude::*;

verus! {

/// The `k`-th triangle of the fan over `resolution` perimeter vertices.
///
/// The pivot is vertex 0 and the perimeter vertices are `1 ..= resolution`.
/// Triangles `0 .. resolution - 1` join the pivot to consecutive perimeter
/// vertices; the last one closes the fan between the final perimeter vertex
/// and the first.
pub open spec fn fan_triangle(resolution: nat, k: nat) -> Seq<nat> {
    if k + 1 < resolution {
        seq![0, k + 1, k + 2]
    } else {
        seq![1, 0, resolution]
    }
}

/// Whether `t` lists exactly the triangles of the fan over `resolution`
/// perimeter vertices, in order.
pub open spec fn is_fan(resolution: nat, t: Seq<[u32; 3]>) -> bool {
    &&& t.len() == resolution
    &&& forall|k: int|
        0 <= k < resolution ==> (#[trigger] t[k])@.map_values(|x: u32| x as nat)
            == fan_triangle(resolution, k as nat)
}

/// The triangle index list of the fan over `resolution` perimeter vertices:
/// one triangle per perimeter vertex, none at all for `resolution == 0`, and
/// a single degenerate triangle for `resolution == 1`.
pub fn fan_triangles(resolution: u32) -> (r: Vec<[u32; 3]>)
    ensures
        is_fan(resolution as nat, r@),
        forall|k: int, j: int|
            0 <= k < r@.len() && 0 <= j < 3 ==> #[trigger] r@[k]@[j] <= resolution,
{
    let mut r: Vec<[u32; 3]> = Vec::new();
    if resolution == 0 {
        return r;
    }
    let mut i: u32 = 1;
    while i < resolution
        invariant
            1 <= i <= resolution,
            r@.len() == i - 1,
            forall|k: int|
                0 <= k < i - 1 ==> (#[trigger] r@[k])@.map_values(|x: u32| x as nat)
                    == fan_triangle(resolution as nat, k as nat),
        decreases resolution - i,
    {
        let t: [u32; 3] = [0, i, i + 1];
        assert(t@.map_values(|x: u32| x as nat) =~= fan_triangle(resolution as nat, (i - 1) as nat));
        r.push(t);
        i = i + 1;
    }
    let last: [u32; 3] = [1, 0, resolution];
    assert(last@.map_values(|x: u32| x as nat) =~= fan_triangle(resolution as nat, (resolution - 1) as nat));
    r.push(last);
    proof {
        assert forall|k: int, j: int| 0 <= k < r@.len() && 0 <= j < 3 implies #[trigger] r@[k]@[j]
            <= resolution by {
            lemma_fan_indices_in_bounds(resolution as nat, k as nat);
            assert(r@[k]@.map_values(|x: u32| x as nat)[j] == r@[k]@[j] as nat);
        }
    }
    r
}

/// Every vertex index of every fan triangle lies in `0 ..= resolution`, so it
/// names either the pivot or one of the `resolution` perimeter vertices.
pub proof fn lemma_fan_indices_in_bounds(resolution: nat, k: nat)
    requires
        k < resolution,
    ensures
        fan_triangle(resolution, k).len() == 3,
        forall|j: int| 0 <= j < 3 ==> #[trigger] fan_triangle(resolution, k)[j] <= resolution,
{
}

/// Builds the fan mesh of a closed polygon sampled at `resolution` evenly
/// spaced angles.
///
/// The vertex list starts with `pivot`; vertex `i + 1` is
/// `sample(i, resolution)`, the perimeter point at the fraction
/// `i / resolution` of a full turn, so the perimeter runs in increasing-angle
/// order. The triangle list is the fan of `fan_triangles(resolution)`.
pub fn generate_fan_mesh<V, F: Fn(u32, u32) -> V>(pivot: V, resolution: u32, sample: F) -> (r: (
    Vec<V>,
    Vec<[u32; 3]>,
))
    requires
        forall|i: u32| i < resolution ==> #[trigger] sample.requires((i, resolution)),
    ensures
        r.0@.len() == resolution as nat + 1,
        r.0@[0] == pivot,
        forall|j: int|
            1 <= j <= resolution ==> sample.ensures(((j - 1) as u32, resolution), #[trigger] r.0@[j]),
        is_fan(resolution as nat, r.1@),
        forall|k: int, j: int|
            0 <= k < r.1@.len() && 0 <= j < 3 ==> #[trigger] r.1@[k]@[j] < r.0@.len(),
{
    let mut vertices: Vec<V> = Vec::new();
    vertices.push(pivot);
    let mut i: u32 = 0;
    while i < resolution
        invariant
            i <= resolution,
            forall|i: u32| i < resolution ==> #[trigger] sample.requires((i, resolution)),
            vertices@.len() == i as nat + 1,
            vertices@[0] == pivot,
            forall|j: int|
                1 <= j <= i ==> sample.ensures(((j - 1) as u32, resolution), #[trigger] vertices@[j]),
        decreases resolution - i,
    {
        let v = sample(i, resolution);
        vertices.push(v);
        i = i + 1;
    }
    let triangles = fan_triangles(resolution);
    (vertices, triangles)
}

/// The triangles laid end to end as a flat index buffer: entry `3 * k + j`
/// is corner `j` of triangle `k`.
pub fn index_buffer(triangles: &Vec<[u32; 3]>) -> (r: Vec<u32>)
    requires
        3 * triangles@.len() <= usize::MAX,
    ensures
        r@.len() == 3 * triangles@.len(),
        forall|k: int, j: int|
            0 <= k < triangles@.len() && 0 <= j < 3 ==> r@[3 * k + j] == #[trigger] triangles@[k]@[j],
{
    let mut r: Vec<u32> = Vec::new();
    let mut k: usize = 0;
    while k < triangles.len()
        invariant
            k <= triangles@.len(),
            3 * triangles@.len() <= usize::MAX,
            r@.len() == 3 * k,
            forall|k2: int, j: int|
                0 <= k2 < k && 0 <= j < 3 ==> r@[3 * k2 + j] == #[trigger] triangles@[k2]@[j],
        decreases triangles@.len() - k,
    {
        let t: [u32; 3] = triangles[k];
        r.push(t[0]);
        r.push(t[1]);
        r.push(t[2]);
        k = k + 1;
    }
    r
}

} // verus!
