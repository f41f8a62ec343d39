//! Coordinate-plane grids drawn as line lists: one line per integer
//! coordinate in `-half_size..=half_size`, in both directions of the plane,
//! with the positive half of the two axes through the origin colored.
use vstd::prelude::*;

verus! {

/// A coordinate plane through the origin.
#[derive(Clone, Copy, Debug, PartialEq, Eq, Structural)]
pub enum GridPlane {
    XZ,
    XY,
    YZ,
}

/// Colors of grid lines: gray for the grid, one color per positive axis half.
#[derive(Clone, Copy, Debug, PartialEq, Eq, Structural)]
pub enum LineColor {
    Gray,
    Red,
    Green,
    Blue,
}

/// A grid vertex: an integer world-space position and a line color.
#[derive(Clone, Copy, Debug, PartialEq, Eq, Structural)]
pub struct GridVertex {
    pub x: i32,
    pub y: i32,
    pub z: i32,
    pub color: LineColor,
}

/// The vertex at plane coordinates `(u, v)`: XZ puts `u` on x and `v` on z,
/// XY puts `u` on x and `v` on y, YZ puts `u` on y and `v` on z.
pub open spec fn plane_vertex(plane: GridPlane, u: int, v: int, color: LineColor) -> GridVertex {
    match plane {
        GridPlane::XZ => GridVertex { x: u as i32, y: 0, z: v as i32, color },
        GridPlane::XY => GridVertex { x: u as i32, y: v as i32, z: 0, color },
        GridPlane::YZ => GridVertex { x: 0, y: u as i32, z: v as i32, color },
    }
}

/// Color of the positive half of the plane's first axis, the line `v = 0`:
/// X is red, Y green and Z blue (XZ: x axis red, XY: x axis red, YZ: y axis green).
pub open spec fn first_axis_color(plane: GridPlane) -> LineColor {
    match plane {
        GridPlane::XZ => LineColor::Red,
        GridPlane::XY => LineColor::Red,
        GridPlane::YZ => LineColor::Green,
    }
}

/// Color of the positive half of the plane's second axis, the line `u = 0`:
/// X is red, Y green and Z blue (XZ: z axis blue, XY: y axis green, YZ: z axis blue).
pub open spec fn second_axis_color(plane: GridPlane) -> LineColor {
    match plane {
        GridPlane::XZ => LineColor::Blue,
        GridPlane::XY => LineColor::Green,
        GridPlane::YZ => LineColor::Blue,
    }
}

/// The vertices for coordinate `i`: the line `u = i` from `v = -n` to `v = n`,
/// then the line `v = i` from `u = -n` to `u = n`; the lines through the origin
/// are split in a gray negative and a colored positive half.
pub open spec fn grid_lines_at(plane: GridPlane, n: int, i: int) -> Seq<GridVertex> {
    let gray = LineColor::Gray;
    if i == 0 {
        seq![
            plane_vertex(plane, 0, -n, gray),
            plane_vertex(plane, 0, 0, gray),
            plane_vertex(plane, 0, 0, second_axis_color(plane)),
            plane_vertex(plane, 0, n, second_axis_color(plane)),
            plane_vertex(plane, -n, 0, gray),
            plane_vertex(plane, 0, 0, gray),
            plane_vertex(plane, 0, 0, first_axis_color(plane)),
            plane_vertex(plane, n, 0, first_axis_color(plane)),
        ]
    } else {
        seq![
            plane_vertex(plane, i, -n, gray),
            plane_vertex(plane, i, n, gray),
            plane_vertex(plane, -n, i, gray),
            plane_vertex(plane, n, i, gray),
        ]
    }
}

/// The vertices of the first `count` coordinates `-n, -n + 1, ...`.
pub open spec fn grid_prefix(plane: GridPlane, n: int, count: nat) -> Seq<GridVertex>
    decreases count,
{
    if count == 0 {
        Seq::empty()
    } else {
        grid_prefix(plane, n, (count - 1) as nat) + grid_lines_at(plane, n, -n + count - 1)
    }
}

/// All vertices of the grid of half size `n`: coordinates `-n..=n`.
pub open spec fn grid_spec(plane: GridPlane, n: int) -> Seq<GridVertex> {
    if n < 0 {
        Seq::empty()
    } else {
        grid_prefix(plane, n, (2 * n + 1) as nat)
    }
}

/// A vertex lies in `plane` within the square `[-n, n]²`.
pub open spec fn in_plane_square(plane: GridPlane, n: int, g: GridVertex) -> bool {
    &&& -n <= g.x <= n
    &&& -n <= g.y <= n
    &&& -n <= g.z <= n
    &&& match plane {
        GridPlane::XZ => g.y == 0,
        GridPlane::XY => g.z == 0,
        GridPlane::YZ => g.x == 0,
    }
}

proof fn lemma_prefix_shape(plane: GridPlane, n: int, count: nat)
    requires
        0 <= n <= i32::MAX,
        count <= 2 * n + 1,
    ensures
        grid_prefix(plane, n, count).len() == 4 * count + if count > n { 4int } else { 0int },
        forall|j: int|
            #![trigger grid_prefix(plane, n, count)[j]]
            0 <= j < grid_prefix(plane, n, count).len() ==> in_plane_square(plane, n, grid_prefix(plane, n, count)[j]),
    decreases count,
{
    if count > 0 {
        let c1 = (count - 1) as nat;
        lemma_prefix_shape(plane, n, c1);
        let prev = grid_prefix(plane, n, c1);
        let lines = grid_lines_at(plane, n, -n + count - 1);
        assert forall|j: int| 0 <= j < lines.len() implies in_plane_square(plane, n, #[trigger] lines[j]) by {}
        assert forall|j: int| 0 <= j < (prev + lines).len() implies in_plane_square(plane, n, #[trigger] (prev + lines)[j]) by {
            if j >= prev.len() {
                assert((prev + lines)[j] == lines[j - prev.len()]);
            }
        }
    }
}

/// A grid of half size `n` has `8n + 8` vertices (four per coordinate, four
/// more for the split axis lines), all in its plane within `[-n, n]²`.
pub proof fn lemma_grid_shape(plane: GridPlane, n: int)
    requires
        0 <= n <= i32::MAX,
    ensures
        grid_spec(plane, n).len() == 8 * n + 8,
        forall|j: int|
            #![trigger grid_spec(plane, n)[j]]
            0 <= j < grid_spec(plane, n).len() ==> in_plane_square(plane, n, grid_spec(plane, n)[j]),
{
    lemma_prefix_shape(plane, n, (2 * n + 1) as nat);
}

/// A colored vertex lies on the positive half of its axis: red on +X, green
/// on +Y, blue on +Z; gray vertices may lie anywhere.
pub open spec fn on_its_axis(g: GridVertex) -> bool {
    match g.color {
        LineColor::Gray => true,
        LineColor::Red => g.x >= 0 && g.y == 0 && g.z == 0,
        LineColor::Green => g.x == 0 && g.y >= 0 && g.z == 0,
        LineColor::Blue => g.x == 0 && g.y == 0 && g.z >= 0,
    }
}

proof fn lemma_prefix_colors(plane: GridPlane, n: int, count: nat)
    requires
        0 <= n <= i32::MAX,
        count <= 2 * n + 1,
    ensures
        forall|j: int|
            #![trigger grid_prefix(plane, n, count)[j]]
            0 <= j < grid_prefix(plane, n, count).len() ==> on_its_axis(grid_prefix(plane, n, count)[j]),
    decreases count,
{
    if count > 0 {
        let c1 = (count - 1) as nat;
        lemma_prefix_colors(plane, n, c1);
        let prev = grid_prefix(plane, n, c1);
        let lines = grid_lines_at(plane, n, -n + count - 1);
        assert forall|j: int| 0 <= j < lines.len() implies on_its_axis(#[trigger] lines[j]) by {}
        assert forall|j: int| 0 <= j < (prev + lines).len() implies on_its_axis(#[trigger] (prev + lines)[j]) by {
            if j >= prev.len() {
                assert((prev + lines)[j] == lines[j - prev.len()]);
            }
        }
    }
}

/// Every colored vertex of a grid lies on the positive half of its own axis
/// (X red, Y green, Z blue), and the grid holds the colored segments from the
/// origin to `n` along both of its axes.
pub proof fn lemma_axis_colors(plane: GridPlane, n: int)
    requires
        0 <= n <= i32::MAX,
    ensures
        forall|j: int|
            #![trigger grid_spec(plane, n)[j]]
            0 <= j < grid_spec(plane, n).len() ==> on_its_axis(grid_spec(plane, n)[j]),
        grid_spec(plane, n).contains(plane_vertex(plane, 0, n, second_axis_color(plane))),
        grid_spec(plane, n).contains(plane_vertex(plane, n, 0, first_axis_color(plane))),
{
    lemma_prefix_colors(plane, n, (2 * n + 1) as nat);
    let count = (n + 1) as nat;
    let prev = grid_prefix(plane, n, n as nat);
    let lines = grid_lines_at(plane, n, 0);
    assert(grid_prefix(plane, n, count) == prev + lines);
    lemma_prefix_shape(plane, n, n as nat);
    lemma_prefix_extends(plane, n, count, (2 * n + 1) as nat);
    let full = grid_spec(plane, n);
    let part = grid_prefix(plane, n, count);
    assert(full == grid_prefix(plane, n, (2 * n + 1) as nat));
    assert(part.len() == prev.len() + 8);
    let j3 = prev.len() + 3int;
    let j7 = prev.len() + 7int;
    assert(part[j3] == lines[3int]);
    assert(part[j7] == lines[7int]);
    assert(full[j3] == part[j3]);
    assert(full[j7] == part[j7]);
}

proof fn lemma_prefix_extends(plane: GridPlane, n: int, a: nat, b: nat)
    requires
        a <= b,
    ensures
        grid_prefix(plane, n, a).len() <= grid_prefix(plane, n, b).len(),
        forall|j: int|
            #![trigger grid_prefix(plane, n, a)[j]]
            0 <= j < grid_prefix(plane, n, a).len() ==> grid_prefix(plane, n, b)[j] == grid_prefix(plane, n, a)[j],
    decreases b,
{
    if a < b {
        let b1 = (b - 1) as nat;
        lemma_prefix_extends(plane, n, a, b1);
        let prev = grid_prefix(plane, n, b1);
        let lines = grid_lines_at(plane, n, -n + b - 1);
        assert forall|j: int| 0 <= j < prev.len() implies #[trigger] (prev + lines)[j] == prev[j] by {}
    }
}

/// The point of a coordinate plane with first coordinate `u` and second
/// coordinate `v`, as a gray vertex: XZ maps `(u, v)` to `(u, 0, v)`, XY to
/// `(u, v, 0)`, YZ to `(0, u, v)`.
pub open spec fn gray_point(plane: GridPlane, u: int, v: int) -> GridVertex {
    match plane {
        GridPlane::XZ => GridVertex { x: u as i32, y: 0, z: v as i32, color: LineColor::Gray },
        GridPlane::XY => GridVertex { x: u as i32, y: v as i32, z: 0, color: LineColor::Gray },
        GridPlane::YZ => GridVertex { x: 0, y: u as i32, z: v as i32, color: LineColor::Gray },
    }
}

/// Every grid line off the axes spans the whole square: for each coordinate
/// `i` in `-n..=n` other than 0, the grid holds the line `u = i` as the
/// consecutive vertices `(i, -n)`, `(i, n)` and the line `v = i` as
/// `(-n, i)`, `(n, i)`.
pub proof fn lemma_full_lines(plane: GridPlane, n: int, i: int)
    requires
        0 <= n <= i32::MAX,
        -n <= i <= n,
        i != 0,
    ensures
        exists|j: int|
            0 <= j && j + 3 < grid_spec(plane, n).len() && #[trigger] grid_spec(plane, n)[j] == gray_point(plane, i, -n)
                && grid_spec(plane, n)[j + 1] == gray_point(plane, i, n)
                && grid_spec(plane, n)[j + 2] == gray_point(plane, -n, i)
                && grid_spec(plane, n)[j + 3] == gray_point(plane, n, i),
{
    let count = (i + n + 1) as nat;
    let prev = grid_prefix(plane, n, (i + n) as nat);
    let lines = grid_lines_at(plane, n, i);
    assert(grid_prefix(plane, n, count) == prev + lines);
    lemma_prefix_extends(plane, n, count, (2 * n + 1) as nat);
    let full = grid_spec(plane, n);
    let part = grid_prefix(plane, n, count);
    assert(full == grid_prefix(plane, n, (2 * n + 1) as nat));
    let j = prev.len() as int;
    assert(part[j] == lines[0]);
    assert(part[j + 1] == lines[1]);
    assert(part[j + 2] == lines[2]);
    assert(part[j + 3] == lines[3]);
    assert(full[j] == part[j]);
    assert(full[j + 1] == part[j + 1]);
    assert(full[j + 2] == part[j + 2]);
    assert(full[j + 3] == part[j + 3]);
    assert(lines[0] == gray_point(plane, i, -n));
    assert(lines[1] == gray_point(plane, i, n));
    assert(lines[2] == gray_point(plane, -n, i));
    assert(lines[3] == gray_point(plane, n, i));
}

/// Line-list vertices of the grid in `plane` for coordinates `-half_size..=half_size`.
pub fn grid_vertices(plane: GridPlane, half_size: i32) -> (verts: Vec<GridVertex>)
    requires
        half_size > i32::MIN,
    ensures
        verts@ == grid_spec(plane, half_size as int),
{
    let mut verts: Vec<GridVertex> = Vec::new();
    if half_size < 0 {
        return verts;
    }
    let n = half_size;
    let mut i: i64 = -(n as i64);
    while i <= n as i64
        invariant
            n == half_size,
            0 <= n,
            -n <= i <= n + 1,
            verts@ == grid_prefix(plane, n as int, (i + n) as nat),
        decreases n + 1 - i,
    {
        let lines: Vec<GridVertex> = grid_lines(plane, n, i as i32);
        let ghost before = verts@;
        let mut k: usize = 0;
        while k < lines.len()
            invariant
                k <= lines.len(),
                verts@ == before + lines@.subrange(0, k as int),
            decreases lines.len() - k,
        {
            verts.push(lines[k]);
            proof {
                assert(lines@.subrange(0, (k + 1) as int) =~= lines@.subrange(0, k as int).push(lines@[k as int]));
            }
            k += 1;
        }
        proof {
            assert(lines@.subrange(0, lines.len() as int) =~= lines@);
            assert(grid_prefix(plane, n as int, (i + n + 1) as nat) == grid_prefix(plane, n as int, (i + n) as nat)
                + grid_lines_at(plane, n as int, i as int));
        }
        i += 1;
    }
    verts
}

fn vertex(plane: GridPlane, u: i32, v: i32, color: LineColor) -> (g: GridVertex)
    ensures
        g == plane_vertex(plane, u as int, v as int, color),
{
    match plane {
        GridPlane::XZ => GridVertex { x: u, y: 0, z: v, color },
        GridPlane::XY => GridVertex { x: u, y: v, z: 0, color },
        GridPlane::YZ => GridVertex { x: 0, y: u, z: v, color },
    }
}

fn axis_colors(plane: GridPlane) -> (c: (LineColor, LineColor))
    ensures
        c.0 == first_axis_color(plane),
        c.1 == second_axis_color(plane),
{
    match plane {
        GridPlane::XZ => (LineColor::Red, LineColor::Blue),
        GridPlane::XY => (LineColor::Red, LineColor::Green),
        GridPlane::YZ => (LineColor::Green, LineColor::Blue),
    }
}

fn grid_lines(plane: GridPlane, n: i32, i: i32) -> (lines: Vec<GridVertex>)
    requires
        n >= 0,
        -n <= i <= n,
    ensures
        lines@ == grid_lines_at(plane, n as int, i as int),
{
    let gray = LineColor::Gray;
    let (first, second) = axis_colors(plane);
    let mut lines: Vec<GridVertex> = Vec::new();
    if i == 0 {
        lines.push(vertex(plane, 0, -n, gray));
        lines.push(vertex(plane, 0, 0, gray));
        lines.push(vertex(plane, 0, 0, second));
        lines.push(vertex(plane, 0, n, second));
        lines.push(vertex(plane, -n, 0, gray));
        lines.push(vertex(plane, 0, 0, gray));
        lines.push(vertex(plane, 0, 0, first));
        lines.push(vertex(plane, n, 0, first));
    } else {
        lines.push(vertex(plane, i, -n, gray));
        lines.push(vertex(plane, i, n, gray));
        lines.push(vertex(plane, -n, i, gray));
        lines.push(vertex(plane, n, i, gray));
    }
    proof {
        assert(lines@ =~= grid_lines_at(plane, n as int, i as int));
    }
    lines
}

} // verus!
