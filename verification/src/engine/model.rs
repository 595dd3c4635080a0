//! Integer topology of the meshes the engine draws: the grid of a UV sphere,
//! its triangle list, and the byte offsets of packed vertex attributes.
use vstd::prelude::*;

verus! {

// ---------------------------------------------------------------------------
// Arithmetic facts
// ---------------------------------------------------------------------------

proof fn lemma_mul_succ(a: int, b: int)
    ensures
        (a + 1) * b == a * b + b,
{
    assert((a + 1) * b == a * b + b) by (nonlinear_arith);
}

proof fn lemma_mul_le(a: int, c: int, b: int)
    requires
        0 <= a <= c,
        0 <= b,
    ensures
        0 <= a * b <= c * b,
{
    assert(0 <= a * b <= c * b) by (nonlinear_arith)
        requires
            0 <= a <= c,
            0 <= b,
    ;
}

// ---------------------------------------------------------------------------
// The sphere grid
// ---------------------------------------------------------------------------

/// Whether a UV sphere with `stacks` x `slices` cells can be meshed with `u32`
/// indices: `slices + 1` points per ring must be countable, and, when there is
/// at least one cell, the largest corner index `stacks * (slices + 1) + slices`
/// (the last point of the grid) must fit.
pub open spec fn sphere_fits(stacks: u32, slices: u32) -> bool {
    &&& slices < u32::MAX
    &&& (stacks >= 1 && slices >= 1) ==> stacks * (slices + 1) + slices <= u32::MAX
}

/// Number of grid points of a sphere: `stacks + 1` rings of `slices + 1` points.
pub open spec fn point_count(stacks: nat, slices: nat) -> nat {
    (stacks + 1) * (slices + 1)
}

/// The grid position `(ring, slice)` of the point with index `k`: points are
/// laid out ring after ring, `slices + 1` to a ring.
pub open spec fn grid_point(k: int, slices: nat) -> (int, int) {
    (k / (slices + 1) as int, k % (slices + 1) as int)
}

/// A grid point as a pair of integers.
pub open spec fn pair_ints(p: (u32, u32)) -> (int, int) {
    (p.0 as int, p.1 as int)
}

/// A sequence of indices read as integers.
pub open spec fn as_ints(s: Seq<u32>) -> Seq<int> {
    s.map_values(|x: u32| x as int)
}

/// The two triangles of the cell whose top-left corner is at ring `stack`,
/// slice `slice`: (top-left, bottom-left, top-right) and
/// (top-right, bottom-left, bottom-right).
pub open spec fn cell_indices(stack: int, slice: int, slices: nat) -> Seq<int> {
    let top_left = stack * (slices + 1) + slice;
    let bottom_left = (stack + 1) * (slices + 1) + slice;
    seq![top_left, bottom_left, top_left + 1, top_left + 1, bottom_left, bottom_left + 1]
}

/// The triangles of the first `cells` cells of the band below ring `stack`.
pub open spec fn row_indices(stack: int, slices: nat, cells: nat) -> Seq<int>
    decreases cells,
{
    if cells == 0 {
        seq![]
    } else {
        row_indices(stack, slices, (cells - 1) as nat) + cell_indices(stack, cells - 1, slices)
    }
}

/// The triangles of the first `rows` bands of cells, band after band.
pub open spec fn band_indices(slices: nat, rows: nat) -> Seq<int>
    decreases rows,
{
    if rows == 0 {
        seq![]
    } else {
        band_indices(slices, (rows - 1) as nat) + row_indices(rows - 1, slices, slices)
    }
}

/// `s` written out `times` times in a row.
pub open spec fn repeated(s: Seq<int>, times: nat) -> Seq<int>
    decreases times,
{
    if times == 0 {
        seq![]
    } else {
        repeated(s, (times - 1) as nat) + s
    }
}

/// The index list of a UV sphere: the triangles of all `stacks` bands, written
/// out once for each of the `stacks + 1` rings.
pub open spec fn sphere_index_seq(stacks: nat, slices: nat) -> Seq<int> {
    repeated(band_indices(slices, stacks), stacks + 1)
}

proof fn lemma_row_len(stack: int, slices: nat, cells: nat)
    ensures
        row_indices(stack, slices, cells).len() == 6 * cells,
    decreases cells,
{
    if cells > 0 {
        lemma_row_len(stack, slices, (cells - 1) as nat);
    }
}

proof fn lemma_band_len(slices: nat, rows: nat)
    ensures
        band_indices(slices, rows).len() == 6 * slices * rows,
    decreases rows,
{
    if rows > 0 {
        lemma_band_len(slices, (rows - 1) as nat);
        lemma_row_len(rows - 1, slices, slices);
        assert(6 * slices * (rows - 1) + 6 * slices == 6 * slices * rows) by (nonlinear_arith);
    } else {
        assert(6 * slices * rows == 0) by (nonlinear_arith)
            requires
                rows == 0,
        ;
    }
}

proof fn lemma_repeated_len(s: Seq<int>, times: nat)
    ensures
        repeated(s, times).len() == times * s.len(),
    decreases times,
{
    if times > 0 {
        lemma_repeated_len(s, (times - 1) as nat);
        lemma_mul_succ(times - 1, s.len() as int);
    } else {
        assert(times * s.len() == 0) by (nonlinear_arith)
            requires
                times == 0,
        ;
    }
}

/// The index list of a sphere holds six indices per cell per ring.
pub proof fn lemma_sphere_index_len(stacks: nat, slices: nat)
    ensures
        sphere_index_seq(stacks, slices).len() == 6 * stacks * slices * (stacks + 1),
{
    lemma_band_len(slices, stacks);
    lemma_repeated_len(band_indices(slices, stacks), stacks + 1);
    assert((stacks + 1) * (6 * slices * stacks) == 6 * stacks * slices * (stacks + 1))
        by (nonlinear_arith);
}

proof fn lemma_row_bounds(stack: int, slices: nat, cells: nat)
    requires
        0 <= stack,
        cells <= slices,
    ensures
        forall|i: int|
            0 <= i < row_indices(stack, slices, cells).len() ==> 0 <= #[trigger] row_indices(
                stack,
                slices,
                cells,
            )[i] < (stack + 2) * (slices + 1),
    decreases cells,
{
    if cells > 0 {
        lemma_row_bounds(stack, slices, (cells - 1) as nat);
        lemma_row_len(stack, slices, (cells - 1) as nat);
        lemma_mul_le(0, stack, slices + 1 as int);
        lemma_mul_succ(stack, slices + 1 as int);
        lemma_mul_succ(stack + 1, slices + 1 as int);
        let prev = row_indices(stack, slices, (cells - 1) as nat);
        let cell = cell_indices(stack, cells - 1, slices);
        assert forall|i: int|
            0 <= i < row_indices(stack, slices, cells).len() implies 0 <= #[trigger] row_indices(
            stack,
            slices,
            cells,
        )[i] < (stack + 2) * (slices + 1) by {
            if i >= prev.len() {
                assert(row_indices(stack, slices, cells)[i] == cell[i - prev.len()]);
            } else {
                assert(row_indices(stack, slices, cells)[i] == prev[i]);
            }
        }
    }
}

proof fn lemma_band_bounds(slices: nat, rows: nat)
    ensures
        forall|i: int|
            0 <= i < band_indices(slices, rows).len() ==> 0 <= #[trigger] band_indices(
                slices,
                rows,
            )[i] < (rows + 1) * (slices + 1),
    decreases rows,
{
    if rows > 0 {
        lemma_band_bounds(slices, (rows - 1) as nat);
        lemma_row_bounds(rows - 1, slices, slices);
        lemma_mul_le(rows as int, rows + 1 as int, slices + 1 as int);
        let prev = band_indices(slices, (rows - 1) as nat);
        let row = row_indices(rows - 1, slices, slices);
        assert forall|i: int|
            0 <= i < band_indices(slices, rows).len() implies 0 <= #[trigger] band_indices(
            slices,
            rows,
        )[i] < (rows + 1) * (slices + 1) by {
            if i >= prev.len() {
                assert(band_indices(slices, rows)[i] == row[i - prev.len()]);
            } else {
                assert(band_indices(slices, rows)[i] == prev[i]);
            }
        }
    }
}

proof fn lemma_repeated_bounds(s: Seq<int>, times: nat, bound: int)
    requires
        forall|i: int| 0 <= i < s.len() ==> 0 <= #[trigger] s[i] < bound,
    ensures
        forall|i: int|
            0 <= i < repeated(s, times).len() ==> 0 <= #[trigger] repeated(s, times)[i] < bound,
    decreases times,
{
    if times > 0 {
        lemma_repeated_bounds(s, (times - 1) as nat, bound);
        let prev = repeated(s, (times - 1) as nat);
        assert forall|i: int|
            0 <= i < repeated(s, times).len() implies 0 <= #[trigger] repeated(s, times)[i]
            < bound by {
            if i >= prev.len() {
                assert(repeated(s, times)[i] == s[i - prev.len()]);
            } else {
                assert(repeated(s, times)[i] == prev[i]);
            }
        }
    }
}

/// Every index of a sphere's triangle list names a point of its grid: it lies
/// in `0 .. (stacks + 1) * (slices + 1)`.
pub proof fn lemma_sphere_indices_in_grid(stacks: nat, slices: nat)
    ensures
        forall|i: int|
            0 <= i < sphere_index_seq(stacks, slices).len() ==> 0 <= #[trigger] sphere_index_seq(
                stacks,
                slices,
            )[i] < point_count(stacks, slices),
{
    lemma_band_bounds(slices, stacks);
    lemma_repeated_bounds(band_indices(slices, stacks), stacks + 1, point_count(stacks, slices) as int);
}

/// The point with index `stack * (slices + 1) + slice` sits at ring `stack`,
/// slice `slice`.
pub proof fn lemma_grid_point_of(stack: int, slice: int, slices: nat)
    requires
        0 <= slice <= slices,
    ensures
        grid_point(stack * (slices + 1) + slice, slices) == (stack, slice),
{
    vstd::arithmetic::div_mod::lemma_fundamental_div_mod_converse(
        stack * (slices + 1) + slice,
        slices + 1 as int,
        stack,
        slice,
    );
}

/// The two triangles of a cell join exactly its four corners: ring `stack`
/// and `stack + 1`, slice `slice` and `slice + 1`, each triangle turning the
/// same way round.
pub proof fn lemma_cell_corners(stack: int, slice: int, slices: nat)
    requires
        0 <= slice < slices,
    ensures
        grid_point(cell_indices(stack, slice, slices)[0], slices) == (stack, slice),
        grid_point(cell_indices(stack, slice, slices)[1], slices) == (stack + 1, slice),
        grid_point(cell_indices(stack, slice, slices)[2], slices) == (stack, slice + 1),
        cell_indices(stack, slice, slices)[3] == cell_indices(stack, slice, slices)[2],
        cell_indices(stack, slice, slices)[4] == cell_indices(stack, slice, slices)[1],
        grid_point(cell_indices(stack, slice, slices)[5], slices) == (stack + 1, slice + 1),
{
    lemma_grid_point_of(stack, slice, slices);
    lemma_grid_point_of(stack + 1, slice, slices);
    lemma_grid_point_of(stack, slice + 1, slices);
    lemma_grid_point_of(stack + 1, slice + 1, slices);
}

proof fn lemma_row_cell_at(stack: int, slices: nat, cells: nat, slice: int, j: int)
    requires
        0 <= slice < cells,
        0 <= j < 6,
    ensures
        row_indices(stack, slices, cells).len() == 6 * cells,
        row_indices(stack, slices, cells)[6 * slice + j] == cell_indices(stack, slice, slices)[j],
    decreases cells,
{
    lemma_row_len(stack, slices, cells);
    lemma_row_len(stack, slices, (cells - 1) as nat);
    if slice < cells - 1 {
        lemma_row_cell_at(stack, slices, (cells - 1) as nat, slice, j);
    }
}

proof fn lemma_band_row_at(slices: nat, rows: nat, band: int, t: int)
    requires
        0 <= band < rows,
        0 <= t < 6 * slices,
    ensures
        band_indices(slices, rows)[6 * slices * band + t] == row_indices(band, slices, slices)[t],
    decreases rows,
{
    lemma_band_len(slices, (rows - 1) as nat);
    lemma_row_len(rows - 1, slices, slices);
    if band < rows - 1 {
        lemma_band_row_at(slices, (rows - 1) as nat, band, t);
        assert(6 * slices * band + t < 6 * slices * (rows - 1)) by (nonlinear_arith)
            requires
                band < rows - 1,
                0 <= t < 6 * slices,
        ;
    }
}

proof fn lemma_repeated_at(s: Seq<int>, times: nat, copy: int, t: int)
    requires
        0 <= copy < times,
        0 <= t < s.len(),
    ensures
        repeated(s, times)[copy * s.len() + t] == s[t],
    decreases times,
{
    lemma_repeated_len(s, (times - 1) as nat);
    if copy < times - 1 {
        lemma_repeated_at(s, (times - 1) as nat, copy, t);
        assert(copy * s.len() + t < (times - 1) * s.len()) by (nonlinear_arith)
            requires
                copy < times - 1,
                0 <= t < s.len(),
        ;
    }
}

/// Where each cell's triangles stand in a sphere's index list: in every copy
/// `copy` (one per ring, `0 ..= stacks`), the six indices that start at
/// `copy * 6 * stacks * slices + 6 * (band * slices + slice)` are the two
/// triangles of the cell at ring `band`, slice `slice`, over the grid points
/// (band, slice), (band + 1, slice), (band, slice + 1), (band, slice + 1),
/// (band + 1, slice), (band + 1, slice + 1). So every cell of every band is
/// drawn, once per copy, each with its own corners.
pub proof fn lemma_sphere_cell_triangles(stacks: nat, slices: nat, copy: int, band: int, slice: int)
    requires
        0 <= copy <= stacks,
        0 <= band < stacks,
        0 <= slice < slices,
    ensures
        sphere_index_seq(stacks, slices)[copy * (6 * stacks * slices) + 6 * (band * slices
            + slice)] == band * (slices + 1) + slice,
        sphere_index_seq(stacks, slices)[copy * (6 * stacks * slices) + 6 * (band * slices + slice)
            + 1] == (band + 1) * (slices + 1) + slice,
        sphere_index_seq(stacks, slices)[copy * (6 * stacks * slices) + 6 * (band * slices + slice)
            + 2] == band * (slices + 1) + slice + 1,
        sphere_index_seq(stacks, slices)[copy * (6 * stacks * slices) + 6 * (band * slices + slice)
            + 3] == band * (slices + 1) + slice + 1,
        sphere_index_seq(stacks, slices)[copy * (6 * stacks * slices) + 6 * (band * slices + slice)
            + 4] == (band + 1) * (slices + 1) + slice,
        sphere_index_seq(stacks, slices)[copy * (6 * stacks * slices) + 6 * (band * slices + slice)
            + 5] == (band + 1) * (slices + 1) + slice + 1,
        grid_point(
            sphere_index_seq(stacks, slices)[copy * (6 * stacks * slices) + 6 * (band * slices
                + slice)],
            slices,
        ) == (band, slice),
        grid_point(
            sphere_index_seq(stacks, slices)[copy * (6 * stacks * slices) + 6 * (band * slices
                + slice) + 1],
            slices,
        ) == (band + 1, slice),
        grid_point(
            sphere_index_seq(stacks, slices)[copy * (6 * stacks * slices) + 6 * (band * slices
                + slice) + 2],
            slices,
        ) == (band, slice + 1),
        grid_point(
            sphere_index_seq(stacks, slices)[copy * (6 * stacks * slices) + 6 * (band * slices
                + slice) + 5],
            slices,
        ) == (band + 1, slice + 1),
{
    let whole = band_indices(slices, stacks);
    let base = copy * (6 * stacks * slices) + 6 * (band * slices + slice);
    lemma_band_len(slices, stacks);
    assert(6 * (band * slices + slice) + 6 <= 6 * slices * stacks) by (nonlinear_arith)
        requires
            band < stacks,
            slice < slices,
    ;
    assert(6 * (band * slices + slice) == 6 * slices * band + 6 * slice) by (nonlinear_arith);
    assert forall|j: int| 0 <= j < 6 implies #[trigger] sphere_index_seq(stacks, slices)[base
        + j] == cell_indices(band, slice, slices)[j] by {
        let t = 6 * (band * slices + slice) + j;
        lemma_repeated_at(whole, stacks + 1, copy, t);
        assert(whole.len() == 6 * stacks * slices) by (nonlinear_arith)
            requires
                whole.len() == 6 * slices * stacks,
        ;
        assert(sphere_index_seq(stacks, slices)[base + j] == whole[t]);
        assert(t == 6 * slices * band + (6 * slice + j));
        assert(6 * slice + j < 6 * slices);
        lemma_band_row_at(slices, stacks, band, 6 * slice + j);
        lemma_row_cell_at(band, slices, slices, slice, j);
    }
    assert(sphere_index_seq(stacks, slices)[base + 0] == cell_indices(
        band,
        slice,
        slices,
    )[0]);
    lemma_mul_succ(band, slices + 1 as int);
    lemma_cell_corners(band, slice, slices);
}

/// The integer skeleton of a UV sphere: the grid position of every point,
/// and the triangle list over those points.
pub struct SphereMesh {
    /// `(ring, slice)` of each point, in the order the points are laid out.
    pub points: Vec<(u32, u32)>,
    /// Three point indices per triangle.
    pub indices: Vec<u32>,
}

/// Appends the `slices + 1` points of ring `ring`.
fn push_ring_points(points: &mut Vec<(u32, u32)>, ring: u32, slices: u32)
    requires
        slices < u32::MAX,
        old(points)@.len() == ring * (slices + 1),
        forall|k: int|
            0 <= k < old(points)@.len() ==> pair_ints(#[trigger] old(points)@[k]) == grid_point(
                k,
                slices as nat,
            ),
    ensures
        final(points)@.len() == (ring + 1) * (slices + 1),
        forall|k: int|
            0 <= k < final(points)@.len() ==> pair_ints(#[trigger] final(points)@[k])
                == grid_point(k, slices as nat),
{
    let mut slice: u32 = 0;
    while slice <= slices
        invariant
            slices < u32::MAX,
            slice <= slices + 1,
            points@.len() == ring * (slices + 1) + slice,
            forall|k: int|
                0 <= k < points@.len() ==> pair_ints(#[trigger] points@[k]) == grid_point(
                    k,
                    slices as nat,
                ),
        decreases slices + 1 - slice,
    {
        proof {
            lemma_grid_point_of(ring as int, slice as int, slices as nat);
        }
        points.push((ring, slice));
        slice = slice + 1;
    }
    proof {
        lemma_mul_succ(ring as int, slices + 1);
    }
}

/// Appends the triangles of every cell of the sphere, band after band.
fn push_band_indices(indices: &mut Vec<u32>, stacks: u32, slices: u32)
    requires
        sphere_fits(stacks, slices),
    ensures
        as_ints(final(indices)@) == as_ints(old(indices)@) + band_indices(
            slices as nat,
            stacks as nat,
        ),
{
    let ghost start = as_ints(indices@);
    let verts_per_ring: u32 = slices + 1;
    let mut stack: u32 = 0;
    while stack < stacks
        invariant
            sphere_fits(stacks, slices),
            verts_per_ring == slices + 1,
            stack <= stacks,
            as_ints(indices@) == start + band_indices(slices as nat, stack as nat),
        decreases stacks - stack,
    {
        let mut slice: u32 = 0;
        while slice < slices
            invariant
                sphere_fits(stacks, slices),
                verts_per_ring == slices + 1,
                stack < stacks,
                slice <= slices,
                as_ints(indices@) == start + band_indices(slices as nat, stack as nat)
                    + row_indices(stack as int, slices as nat, slice as nat),
            decreases slices - slice,
        {
            proof {
                lemma_mul_succ(stack as int, slices + 1);
                lemma_mul_le(stack + 1, stacks as int, slices + 1);
            }
            let ghost before = as_ints(indices@);
            let top_left = stack * verts_per_ring + slice;
            let top_right = top_left + 1;
            let bottom_left = (stack + 1) * verts_per_ring + slice;
            let bottom_right = bottom_left + 1;

            indices.push(top_left);
            indices.push(bottom_left);
            indices.push(top_right);

            indices.push(top_right);
            indices.push(bottom_left);
            indices.push(bottom_right);
            proof {
                let cell = cell_indices(stack as int, slice as int, slices as nat);
                assert(as_ints(indices@) =~= before + cell);
                assert(row_indices(stack as int, slices as nat, (slice + 1) as nat) == row_indices(
                    stack as int,
                    slices as nat,
                    slice as nat,
                ) + cell);
                assert(start + band_indices(slices as nat, stack as nat) + row_indices(
                    stack as int,
                    slices as nat,
                    (slice + 1) as nat,
                ) =~= before + cell);
            }
            slice = slice + 1;
        }
        proof {
            assert(band_indices(slices as nat, (stack + 1) as nat) == band_indices(
                slices as nat,
                stack as nat,
            ) + row_indices(stack as int, slices as nat, slices as nat));
            assert(start + band_indices(slices as nat, (stack + 1) as nat) =~= start
                + band_indices(slices as nat, stack as nat) + row_indices(
                stack as int,
                slices as nat,
                slices as nat,
            ));
        }
        stack = stack + 1;
    }
}

impl SphereMesh {
    /// Lays out a UV sphere of `stacks` bands and `slices` segments. Ring after
    /// ring (`stacks + 1` of them), it appends the ring's `slices + 1` points
    /// and then the two triangles of every cell of the sphere, so the full
    /// triangle list appears once per ring.
    pub fn uv_sphere(stacks: u32, slices: u32) -> (mesh: SphereMesh)
        requires
            sphere_fits(stacks, slices),
        ensures
            mesh.points@.len() == point_count(stacks as nat, slices as nat),
            forall|k: int|
                0 <= k < mesh.points@.len() ==> pair_ints(#[trigger] mesh.points@[k])
                    == grid_point(k, slices as nat),
            as_ints(mesh.indices@) == sphere_index_seq(stacks as nat, slices as nat),
            mesh.indices@.len() == 6 * stacks * slices * (stacks + 1),
    {
        let mut points: Vec<(u32, u32)> = Vec::new();
        let mut indices: Vec<u32> = Vec::new();
        let ghost band = band_indices(slices as nat, stacks as nat);
        let mut ring: u64 = 0;
        while ring <= stacks as u64
            invariant
                sphere_fits(stacks, slices),
                band == band_indices(slices as nat, stacks as nat),
                ring <= stacks + 1,
                points@.len() == ring * (slices + 1),
                forall|k: int|
                    0 <= k < points@.len() ==> pair_ints(#[trigger] points@[k]) == grid_point(
                        k,
                        slices as nat,
                    ),
                as_ints(indices@) == repeated(band, ring as nat),
            decreases stacks + 1 - ring,
        {
            push_ring_points(&mut points, ring as u32, slices);
            push_band_indices(&mut indices, stacks, slices);
            ring = ring + 1;
        }
        proof {
            lemma_sphere_index_len(stacks as nat, slices as nat);
        }
        SphereMesh { points, indices }
    }
}

// ---------------------------------------------------------------------------
// GPU-resident meshes
// ---------------------------------------------------------------------------

#[verifier::external_type_specification]
#[verifier::external_body]
pub struct ExBuffer(wgpu::Buffer);

/// `wgpu::Buffer::clone` (derived) clones each field of the buffer: the
/// shared handles to the backend buffer and its mapping state, and the copied
/// size and usage. The result is the same buffer, so it is stated equal to the
/// argument.
pub assume_specification[ <wgpu::Buffer as Clone>::clone ](buffer: &wgpu::Buffer) -> (r:
    wgpu::Buffer)
    ensures
        r == *buffer,
;

/// A mesh uploaded to the GPU: its vertex and index buffers and the number of
/// indices to draw.
#[derive(Clone)]
pub struct Model {
    vertex_buffer: wgpu::Buffer,
    index_buffer: wgpu::Buffer,
    index_count: u32,
}

impl Model {
    /// The number of indices drawn.
    pub closed spec fn index_count_spec(&self) -> u32 {
        self.index_count
    }

    /// The buffer the vertices are drawn from.
    pub closed spec fn vertex_buffer_spec(&self) -> wgpu::Buffer {
        self.vertex_buffer
    }

    /// The buffer the indices are read from.
    pub closed spec fn index_buffer_spec(&self) -> wgpu::Buffer {
        self.index_buffer
    }

    /// A model over buffers that hold `indices` and their vertices; it draws
    /// as many indices as there are (their count taken as a `u32`).
    pub fn new(vertex_buffer: wgpu::Buffer, index_buffer: wgpu::Buffer, indices: &Vec<u32>) -> (m:
        Model)
        ensures
            m.vertex_buffer_spec() == vertex_buffer,
            m.index_buffer_spec() == index_buffer,
            m.index_count_spec() == indices@.len() as u32,
    {
        let index_count = indices.len() as u32;
        Model { vertex_buffer, index_buffer, index_count }
    }

    /// A handle to the vertex buffer.
    pub fn vertex_buffer(&self) -> (b: wgpu::Buffer)
        ensures
            b == self.vertex_buffer_spec(),
    {
        self.vertex_buffer.clone()
    }

    /// A handle to the index buffer.
    pub fn index_buffer(&self) -> (b: wgpu::Buffer)
        ensures
            b == self.index_buffer_spec(),
    {
        self.index_buffer.clone()
    }

    /// The number of indices drawn.
    pub fn index_count(&self) -> (n: u32)
        ensures
            n == self.index_count_spec(),
    {
        self.index_count
    }
}

// ---------------------------------------------------------------------------
// Packed vertex attributes
// ---------------------------------------------------------------------------

/// Total size of the first `n` attributes.
pub open spec fn size_prefix(sizes: Seq<u64>, n: int) -> int
    decreases n,
{
    if n <= 0 {
        0
    } else {
        size_prefix(sizes, n - 1) + sizes[n - 1]
    }
}

proof fn lemma_size_prefix_mono(sizes: Seq<u64>, i: int, j: int)
    requires
        0 <= i <= j,
    ensures
        0 <= size_prefix(sizes, i) <= size_prefix(sizes, j),
    decreases j,
{
    if i < j {
        lemma_size_prefix_mono(sizes, i, j - 1);
    } else if i > 0 {
        lemma_size_prefix_mono(sizes, i - 1, i - 1);
    }
}

/// Packed attributes touch without overlapping: each one starts where the
/// one before it ends, the first starts at zero, and together they span the
/// total of their sizes.
pub proof fn lemma_packed_attributes_adjacent(sizes: Seq<u64>)
    ensures
        size_prefix(sizes, 0) == 0,
        forall|i: int|
            0 <= i < sizes.len() ==> #[trigger] size_prefix(sizes, i + 1) == size_prefix(sizes, i)
                + sizes[i],
        forall|i: int|
            0 <= i < sizes.len() ==> size_prefix(sizes, i) + #[trigger] sizes[i] <= size_prefix(
                sizes,
                sizes.len() as int,
            ),
{
    assert forall|i: int| 0 <= i < sizes.len() implies size_prefix(sizes, i) + #[trigger] sizes[i]
        <= size_prefix(sizes, sizes.len() as int) by {
        lemma_size_prefix_mono(sizes, i + 1, sizes.len() as int);
    }
}

/// Where one attribute of a vertex is read: its shader location and its byte
/// offset from the start of the vertex.
pub struct AttributeSlot {
    pub location: u32,
    pub offset: u64,
}

/// Places attributes of the given byte sizes one after the other, without
/// gaps, at consecutive shader locations starting at `first_location`.
pub fn packed_attributes(first_location: u32, sizes: &Vec<u64>) -> (slots: Vec<AttributeSlot>)
    requires
        first_location + sizes@.len() <= u32::MAX + 1,
        size_prefix(sizes@, sizes@.len() as int) <= u64::MAX,
    ensures
        slots@.len() == sizes@.len(),
        forall|i: int|
            0 <= i < slots@.len() ==> (#[trigger] slots@[i]).location == first_location + i
                && slots@[i].offset == size_prefix(sizes@, i),
{
    let mut slots: Vec<AttributeSlot> = Vec::new();
    let mut offset: u64 = 0;
    let mut i: usize = 0;
    while i < sizes.len()
        invariant
            first_location + sizes@.len() <= u32::MAX + 1,
            size_prefix(sizes@, sizes@.len() as int) <= u64::MAX,
            i <= sizes@.len(),
            slots@.len() == i,
            offset == size_prefix(sizes@, i as int),
            forall|j: int|
                0 <= j < i ==> (#[trigger] slots@[j]).location == first_location + j
                    && slots@[j].offset == size_prefix(sizes@, j),
        decreases sizes@.len() - i,
    {
        proof {
            lemma_size_prefix_mono(sizes@, i + 1, sizes@.len() as int);
        }
        slots.push(AttributeSlot { location: first_location + i as u32, offset });
        offset = offset + sizes[i];
        i = i + 1;
    }
    slots
}

} // verus!
