//! Triangle indices of the UV sphere that every celestial body is drawn with.
//!
//! The sphere has `num_parallels + 1` rings of `num_meridians + 1` vertices,
//! from the north pole (ring 0) to the south pole; the first and last vertex
//! of a ring coincide so that texture coordinates wrap. Vertex `ring * (num_meridians + 1) + k`
//! is the `k`-th vertex of a ring. Every cell between two rings is two triangles.
use vstd::prelude::*;

verus! {

/// Number of vertices of a sphere with the given tessellation.
pub open spec fn sphere_vertex_count(num_meridians: int, num_parallels: int) -> int {
    (num_meridians + 1) * (num_parallels + 1)
}

/// The six indices of the cell between rings `ring` and `ring + 1` and
/// meridians `k` and `k + 1`: triangles `(a, a+1, b)` and `(a+1, b+1, b)`
/// with `a` on the upper ring and `b` below it.
pub open spec fn cell_indices(num_meridians: int, ring: int, k: int) -> Seq<int> {
    let s_curr = ring * (num_meridians + 1);
    let s_next = s_curr + num_meridians + 1;
    seq![s_curr + k, s_curr + k + 1, s_next + k, s_curr + k + 1, s_next + k + 1, s_next + k]
}

/// The indices of the first `cells` cells of band `ring`.
pub open spec fn band_indices(num_meridians: int, ring: int, cells: nat) -> Seq<int>
    decreases cells,
{
    if cells == 0 {
        Seq::empty()
    } else {
        band_indices(num_meridians, ring, (cells - 1) as nat) + cell_indices(num_meridians, ring, cells - 1)
    }
}

/// The indices of the first `bands` bands, each of `num_meridians` cells.
pub open spec fn sphere_index_seq(num_meridians: nat, bands: nat) -> Seq<int>
    decreases bands,
{
    if bands == 0 {
        Seq::empty()
    } else {
        sphere_index_seq(num_meridians, (bands - 1) as nat) + band_indices(num_meridians as int, bands - 1, num_meridians)
    }
}

proof fn lemma_band_len(m: int, ring: int, cells: nat)
    ensures
        band_indices(m, ring, cells).len() == 6 * cells,
    decreases cells,
{
    if cells > 0 {
        lemma_band_len(m, ring, (cells - 1) as nat);
    }
}

proof fn lemma_sphere_len(m: nat, bands: nat)
    ensures
        sphere_index_seq(m, bands).len() == 6 * m * bands,
    decreases bands,
{
    if bands > 0 {
        lemma_sphere_len(m, (bands - 1) as nat);
        lemma_band_len(m as int, bands - 1, m);
        let b1 = (bands - 1) as nat;
        assert(6 * m * bands == 6 * m * b1 + 6 * m) by (nonlinear_arith)
            requires
                b1 + 1 == bands,
        ;
        assert(sphere_index_seq(m, bands) == sphere_index_seq(m, b1) + band_indices(m as int, b1 as int, m));
        assert(sphere_index_seq(m, b1).len() == 6 * m * b1);
        assert(band_indices(m as int, b1 as int, m).len() == 6 * m);
    } else {
        assert(6 * m * bands == 0) by (nonlinear_arith)
            requires
                bands == 0,
        ;
    }
}

proof fn lemma_band_bounds(m: nat, ring: nat, cells: nat)
    requires
        cells <= m,
    ensures
        forall|j: int|
            #![trigger band_indices(m as int, ring as int, cells)[j]]
            0 <= j < band_indices(m as int, ring as int, cells).len() ==> 0 <= band_indices(m as int, ring as int, cells)[j]
                < (ring + 2) * (m + 1),
    decreases cells,
{
    if cells > 0 {
        lemma_band_bounds(m, ring, (cells - 1) as nat);
        lemma_band_len(m as int, ring as int, (cells - 1) as nat);
        let prev = band_indices(m as int, ring as int, (cells - 1) as nat);
        let c = cell_indices(m as int, ring as int, cells - 1);
        assert((ring + 2) * (m + 1) == ring * (m + 1) + 2 * (m + 1)) by (nonlinear_arith);
        assert(0 <= ring * (m + 1)) by (nonlinear_arith);
        assert forall|j: int| 0 <= j < (prev + c).len() implies 0 <= #[trigger] (prev + c)[j] < (ring + 2) * (m + 1) by {
            if j >= prev.len() {
                assert((prev + c)[j] == c[j - prev.len()]);
            }
        }
    }
}

/// Every index of a sphere's triangle list names one of its vertices.
pub proof fn lemma_sphere_indices_in_range(m: nat, bands: nat)
    ensures
        forall|j: int|
            #![trigger sphere_index_seq(m, bands)[j]]
            0 <= j < sphere_index_seq(m, bands).len() ==> 0 <= sphere_index_seq(m, bands)[j] < sphere_vertex_count(
                m as int,
                bands as int,
            ),
    decreases bands,
{
    if bands > 0 {
        lemma_sphere_indices_in_range(m, (bands - 1) as nat);
        lemma_band_bounds(m, (bands - 1) as nat, m);
        let prev = sphere_index_seq(m, (bands - 1) as nat);
        let b = band_indices(m as int, bands - 1, m);
        assert(sphere_vertex_count(m as int, bands - 1) <= sphere_vertex_count(m as int, bands as int)) by (nonlinear_arith)
            requires
                bands > 0,
        ;
        assert((bands - 1 + 2) * (m + 1) == sphere_vertex_count(m as int, bands as int)) by (nonlinear_arith);
        assert forall|j: int| 0 <= j < (prev + b).len() implies 0 <= #[trigger] (prev + b)[j] < sphere_vertex_count(
            m as int,
            bands as int,
        ) by {
            if j >= prev.len() {
                assert((prev + b)[j] == b[j - prev.len()]);
            }
        }
    }
}

proof fn lemma_band_cell(m: int, ring: int, cells: nat, k: int, j: int)
    requires
        0 <= k < cells,
        0 <= j < 6,
    ensures
        band_indices(m, ring, cells)[6 * k + j] == cell_indices(m, ring, k)[j],
    decreases cells,
{
    lemma_band_len(m, ring, (cells - 1) as nat);
    if k < cells - 1 {
        lemma_band_cell(m, ring, (cells - 1) as nat, k, j);
    }
}

proof fn lemma_sphere_prefix(m: nat, a: nat, b: nat, j: int)
    requires
        a <= b,
        0 <= j < sphere_index_seq(m, a).len(),
    ensures
        sphere_index_seq(m, b)[j] == sphere_index_seq(m, a)[j],
    decreases b,
{
    if a < b {
        lemma_sphere_prefix(m, a, (b - 1) as nat, j);
        lemma_sphere_len(m, a);
        lemma_sphere_len(m, (b - 1) as nat);
        assert(6 * m * a <= 6 * m * (b - 1)) by (nonlinear_arith)
            requires
                a <= b - 1,
        ;
    }
}

/// Every cell of every band is the same pair of counter-clockwise triangles:
/// with `m` meridians, the six indices for ring `r` and meridian `k` start at
/// `6 (r m + k)` and are `a, a+1, b, a+1, b+1, b`, where `a = r (m+1) + k` is
/// on ring `r` and `b = (r+1) (m+1) + k` on the ring below it.
pub proof fn lemma_sphere_cell(m: nat, bands: nat, r: int, k: int)
    requires
        0 <= r < bands,
        0 <= k < m,
    ensures
        sphere_index_seq(m, bands)[6 * (r * m + k)] == r * (m + 1) + k,
        sphere_index_seq(m, bands)[6 * (r * m + k) + 1] == r * (m + 1) + k + 1,
        sphere_index_seq(m, bands)[6 * (r * m + k) + 2] == (r + 1) * (m + 1) + k,
        sphere_index_seq(m, bands)[6 * (r * m + k) + 3] == r * (m + 1) + k + 1,
        sphere_index_seq(m, bands)[6 * (r * m + k) + 4] == (r + 1) * (m + 1) + k + 1,
        sphere_index_seq(m, bands)[6 * (r * m + k) + 5] == (r + 1) * (m + 1) + k,
{
    let rn = r as nat;
    let prev = sphere_index_seq(m, rn);
    let band = band_indices(m as int, r, m);
    lemma_sphere_len(m, rn);
    lemma_band_len(m as int, r, m);
    assert(sphere_index_seq(m, (r + 1) as nat) == prev + band);
    let base = 6 * (r * m + k);
    assert(base == 6 * m * r + 6 * k) by (nonlinear_arith)
        requires
            base == 6 * (r * m + k),
    ;
    assert((r + 1) * (m + 1) == r * (m + 1) + m + 1) by (nonlinear_arith);
    lemma_sphere_len(m, (r + 1) as nat);
    assert(6 * m * (r + 1) == 6 * m * r + 6 * m) by (nonlinear_arith);
    assert forall|j: int| 0 <= j < 6 implies #[trigger] sphere_index_seq(m, bands)[base + j] == cell_indices(
        m as int,
        r,
        k,
    )[j] by {
        lemma_band_cell(m as int, r, m, k, j);
        assert((prev + band)[base + j] == band[6 * k + j]);
        lemma_sphere_prefix(m, (r + 1) as nat, bands, base + j);
    }
    assert(sphere_index_seq(m, bands)[base + 0] == cell_indices(m as int, r, k)[0]);
    assert(sphere_index_seq(m, bands)[base + 1] == cell_indices(m as int, r, k)[1]);
    assert(sphere_index_seq(m, bands)[base + 2] == cell_indices(m as int, r, k)[2]);
    assert(sphere_index_seq(m, bands)[base + 3] == cell_indices(m as int, r, k)[3]);
    assert(sphere_index_seq(m, bands)[base + 4] == cell_indices(m as int, r, k)[4]);
    assert(sphere_index_seq(m, bands)[base + 5] == cell_indices(m as int, r, k)[5]);
}

/// Triangle-list indices of a UV sphere with `num_meridians` meridians and
/// `num_parallels` parallels: two triangles per cell, band by band from the
/// north pole.
pub fn sphere_indices(num_meridians: u32, num_parallels: u32) -> (indices: Vec<u32>)
    requires
        sphere_vertex_count(num_meridians as int, num_parallels as int) <= u32::MAX + 1,
        6 * num_meridians * num_parallels <= usize::MAX,
    ensures
        indices@.map_values(|x: u32| x as int) == sphere_index_seq(num_meridians as nat, num_parallels as nat),
        indices.len() == 6 * num_meridians * num_parallels,
{
    let m = num_meridians;
    let p = num_parallels;
    let ghost mn = m as nat;
    let mut indices: Vec<u32> = Vec::new();
    let mut ring: u32 = 0;
    while ring < p
        invariant
            m == num_meridians,
            p == num_parallels,
            mn == m as nat,
            sphere_vertex_count(m as int, p as int) <= u32::MAX + 1,
            6 * m * p <= usize::MAX,
            ring <= p,
            indices@.map_values(|x: u32| x as int) == sphere_index_seq(mn, ring as nat),
        decreases p - ring,
    {
        assert((ring as int + 2) * (m as int + 1) <= sphere_vertex_count(m as int, p as int)) by (nonlinear_arith)
            requires
                ring < p,
        ;
        assert(0 <= ring as int * (m as int + 1)) by (nonlinear_arith);
        assert(m as int + 1 <= u32::MAX && ring as int * (m as int + 1) + 2 * (m as int + 1) <= u32::MAX + 1)
            by (nonlinear_arith)
            requires
                (ring as int + 2) * (m as int + 1) <= u32::MAX + 1,
        ;
        let ghost before = indices@.map_values(|x: u32| x as int);
        let s_curr: u32 = ring * (m + 1);
        let s_next: u32 = s_curr + m + 1;
        let mut k: u32 = 0;
        while k < m
            invariant
                m == num_meridians,
                mn == m as nat,
                ring < p,
                (ring as int + 2) * (m as int + 1) <= u32::MAX + 1,
                s_curr == ring * (m + 1),
                s_next == s_curr + m + 1,
                k <= m,
                before == sphere_index_seq(mn, ring as nat),
                indices@.map_values(|x: u32| x as int) == before + band_indices(m as int, ring as int, k as nat),
            decreases m - k,
        {
            assert((ring as int + 2) * (m as int + 1) == ring as int * (m as int + 1) + 2 * (m as int + 1)) by (nonlinear_arith);
            let ghost old_seq = indices@;
            indices.push(s_curr + k);
            indices.push(s_curr + k + 1);
            indices.push(s_next + k);
            indices.push(s_curr + k + 1);
            indices.push(s_next + k + 1);
            indices.push(s_next + k);
            proof {
                let cell = cell_indices(m as int, ring as int, k as int);
                assert(indices@.map_values(|x: u32| x as int) =~= old_seq.map_values(|x: u32| x as int) + cell);
                assert(band_indices(m as int, ring as int, (k + 1) as nat) == band_indices(m as int, ring as int, k as nat) + cell);
                assert(before + band_indices(m as int, ring as int, (k + 1) as nat) =~= before + band_indices(m as int, ring as int, k as nat) + cell);
            }
            k += 1;
        }
        ring += 1;
    }
    proof {
        lemma_sphere_len(mn, p as nat);
        assert(indices@.map_values(|x: u32| x as int).len() == indices.len());
    }
    indices
}

} // verus!
