//! The draw calls of one frame's scene pass, decided from the view options.
use vstd::prelude::*;
use crate::grid::GridPlane;
use crate::view::ViewOptions;

verus! {

/// One step of the scene render pass, in the order the pass records them.
#[derive(Clone, Copy, Debug, PartialEq, Eq, Structural)]
pub enum DrawStep {
    /// Bind the lit body pipeline, filled or wireframe, with its bind groups.
    BodyPipeline { wireframe: bool },
    /// Draw the free-standing meshes.
    Meshes,
    /// Draw every celestial body of the scene.
    Bodies,
    /// Bind the normals pipeline and draw each body's normal lines.
    Normals,
    /// Bind the line pipeline and draw the debug vector arrows.
    Arrows,
    /// Bind the line pipeline for the grids.
    LinePipeline,
    /// Draw the grid of one plane.
    Grid(GridPlane),
}

/// The step when a flag is set, nothing otherwise.
pub open spec fn step_if(flag: bool, step: DrawStep) -> Seq<DrawStep> {
    if flag {
        seq![step]
    } else {
        Seq::empty()
    }
}

/// The scene pass of a frame: the body pipeline (wireframe or filled), the
/// meshes and bodies, the normals overlay and the arrows when they are on,
/// the line pipeline, then each visible grid in the order XZ, XY, YZ.
pub open spec fn frame_plan(v: ViewOptions) -> Seq<DrawStep> {
    seq![DrawStep::BodyPipeline { wireframe: v.wireframe }, DrawStep::Meshes, DrawStep::Bodies]
        + step_if(v.show_normals, DrawStep::Normals)
        + step_if(v.show_arrows, DrawStep::Arrows)
        + seq![DrawStep::LinePipeline]
        + step_if(v.show_grid_xz, DrawStep::Grid(GridPlane::XZ))
        + step_if(v.show_grid_xy, DrawStep::Grid(GridPlane::XY))
        + step_if(v.show_grid_yz, DrawStep::Grid(GridPlane::YZ))
}

/// Appends `step` when `flag` is set.
fn push_if(steps: &mut Vec<DrawStep>, flag: bool, step: DrawStep)
    ensures
        final(steps)@ == old(steps)@ + step_if(flag, step),
{
    if flag {
        steps.push(step);
    } else {
        assert(old(steps)@ + step_if(flag, step) =~= old(steps)@);
    }
}

/// The draw steps of the scene pass for the given view.
pub fn frame_steps(v: &ViewOptions) -> (steps: Vec<DrawStep>)
    ensures
        steps@ == frame_plan(*v),
{
    let mut steps: Vec<DrawStep> = Vec::new();
    steps.push(DrawStep::BodyPipeline { wireframe: v.wireframe });
    steps.push(DrawStep::Meshes);
    steps.push(DrawStep::Bodies);
    push_if(&mut steps, v.show_normals, DrawStep::Normals);
    push_if(&mut steps, v.show_arrows, DrawStep::Arrows);
    steps.push(DrawStep::LinePipeline);
    push_if(&mut steps, v.show_grid_xz, DrawStep::Grid(GridPlane::XZ));
    push_if(&mut steps, v.show_grid_xy, DrawStep::Grid(GridPlane::XY));
    push_if(&mut steps, v.show_grid_yz, DrawStep::Grid(GridPlane::YZ));
    assert(steps@ =~= frame_plan(*v));
    steps
}

/// Whether the bodies' sphere meshes must be rebuilt after the control panel
/// ran: exactly when the tessellation it shows has changed.
pub fn tessellation_changed(prev_meridians: u32, prev_parallels: u32, v: &ViewOptions) -> (b: bool)
    ensures
        b == (v.sphere_meridians != prev_meridians || v.sphere_parallels != prev_parallels),
{
    v.sphere_meridians != prev_meridians || v.sphere_parallels != prev_parallels
}

/// A grid is drawn in a frame exactly when its plane is visible, the body
/// pipeline always comes first, and the line pipeline is always bound before
/// any grid is drawn.
pub proof fn lemma_frame_plan_grids(v: ViewOptions, p: GridPlane)
    ensures
        frame_plan(v)[0] == (DrawStep::BodyPipeline { wireframe: v.wireframe }),
        frame_plan(v).contains(DrawStep::LinePipeline),
        frame_plan(v).contains(DrawStep::Grid(p)) <==> match p {
            GridPlane::XZ => v.show_grid_xz,
            GridPlane::XY => v.show_grid_xy,
            GridPlane::YZ => v.show_grid_yz,
        },
        forall|i: int, j: int|
            0 <= i < frame_plan(v).len() && 0 <= j < frame_plan(v).len()
                && frame_plan(v)[i] == DrawStep::LinePipeline
                && frame_plan(v)[j] is Grid ==> i < j,
{
    let head = seq![DrawStep::BodyPipeline { wireframe: v.wireframe }, DrawStep::Meshes, DrawStep::Bodies]
        + step_if(v.show_normals, DrawStep::Normals)
        + step_if(v.show_arrows, DrawStep::Arrows);
    let tail = step_if(v.show_grid_xz, DrawStep::Grid(GridPlane::XZ))
        + step_if(v.show_grid_xy, DrawStep::Grid(GridPlane::XY))
        + step_if(v.show_grid_yz, DrawStep::Grid(GridPlane::YZ));
    let plan = head + seq![DrawStep::LinePipeline] + tail;
    assert(frame_plan(v) =~= plan);
    assert(plan[head.len() as int] == DrawStep::LinePipeline);
    assert(forall|k: int| 0 <= k < head.len() ==> !(head[k] is Grid));
    assert(forall|k: int| 0 <= k < head.len() ==> head[k] != DrawStep::LinePipeline);
    assert(forall|k: int| 0 <= k < tail.len() ==> tail[k] is Grid);
    assert forall|i: int, j: int|
        0 <= i < plan.len() && 0 <= j < plan.len() && plan[i] == DrawStep::LinePipeline
            && plan[j] is Grid implies i < j by {
        if i < head.len() {
            assert(plan[i] == head[i]);
        } else if i > head.len() {
            assert(plan[i] == tail[i - head.len() - 1]);
        }
        if j <= head.len() {
            if j < head.len() {
                assert(plan[j] == head[j]);
            }
        }
    }
    if plan.contains(DrawStep::Grid(p)) {
        let k = choose|k: int| 0 <= k < plan.len() && plan[k] == DrawStep::Grid(p);
        if k < head.len() {
            assert(plan[k] == head[k]);
        } else if k > head.len() {
            assert(plan[k] == tail[k - head.len() - 1]);
        }
        assert(tail.contains(DrawStep::Grid(p)));
    }
    let xz = step_if(v.show_grid_xz, DrawStep::Grid(GridPlane::XZ));
    let xy = step_if(v.show_grid_xy, DrawStep::Grid(GridPlane::XY));
    let yz = step_if(v.show_grid_yz, DrawStep::Grid(GridPlane::YZ));
    assert(tail =~= xz + xy + yz);
    let visible = match p {
        GridPlane::XZ => v.show_grid_xz,
        GridPlane::XY => v.show_grid_xy,
        GridPlane::YZ => v.show_grid_yz,
    };
    if visible {
        let k: int = match p {
            GridPlane::XZ => 0,
            GridPlane::XY => xz.len() as int,
            GridPlane::YZ => (xz.len() + xy.len()) as int,
        };
        assert(tail[k] == DrawStep::Grid(p));
        assert(plan[head.len() + 1 + k] == DrawStep::Grid(p));
    } else if tail.contains(DrawStep::Grid(p)) {
        let k = choose|k: int| 0 <= k < tail.len() && tail[k] == DrawStep::Grid(p);
        if k < xz.len() {
            assert(tail[k] == xz[k]);
        } else if k < xz.len() + xy.len() {
            assert(tail[k] == xy[k - xz.len()]);
        } else {
            assert(tail[k] == yz[k - xz.len() - xy.len()]);
        }
    }
}

proof fn lemma_concat_contains(a: Seq<DrawStep>, b: Seq<DrawStep>, x: DrawStep)
    ensures
        (a + b).contains(x) <==> a.contains(x) || b.contains(x),
{
    if (a + b).contains(x) {
        let k = choose|k: int| 0 <= k < (a + b).len() && (a + b)[k] == x;
        if k < a.len() {
            assert(a[k] == x);
        } else {
            assert(b[k - a.len()] == x);
        }
    }
    if a.contains(x) {
        let k = choose|k: int| 0 <= k < a.len() && a[k] == x;
        assert((a + b)[k] == x);
    }
    if b.contains(x) {
        let k = choose|k: int| 0 <= k < b.len() && b[k] == x;
        assert((a + b)[a.len() + k] == x);
    }
}

proof fn lemma_step_if_contains(flag: bool, step: DrawStep, x: DrawStep)
    ensures
        step_if(flag, step).contains(x) <==> flag && step == x,
{
    if flag {
        assert(step_if(flag, step)[0] == step);
    }
}

/// Whether the plan holds `x`, read off its pieces.
proof fn lemma_plan_contains(v: ViewOptions, x: DrawStep)
    ensures
        frame_plan(v).contains(x) <==> {
            ||| x == DrawStep::BodyPipeline { wireframe: v.wireframe }
            ||| x == DrawStep::Meshes
            ||| x == DrawStep::Bodies
            ||| (v.show_normals && x == DrawStep::Normals)
            ||| (v.show_arrows && x == DrawStep::Arrows)
            ||| x == DrawStep::LinePipeline
            ||| (v.show_grid_xz && x == DrawStep::Grid(GridPlane::XZ))
            ||| (v.show_grid_xy && x == DrawStep::Grid(GridPlane::XY))
            ||| (v.show_grid_yz && x == DrawStep::Grid(GridPlane::YZ))
        },
{
    let head = seq![DrawStep::BodyPipeline { wireframe: v.wireframe }, DrawStep::Meshes, DrawStep::Bodies];
    let p1 = head + step_if(v.show_normals, DrawStep::Normals);
    let p2 = p1 + step_if(v.show_arrows, DrawStep::Arrows);
    let p3 = p2 + seq![DrawStep::LinePipeline];
    let p4 = p3 + step_if(v.show_grid_xz, DrawStep::Grid(GridPlane::XZ));
    let p5 = p4 + step_if(v.show_grid_xy, DrawStep::Grid(GridPlane::XY));
    let p6 = p5 + step_if(v.show_grid_yz, DrawStep::Grid(GridPlane::YZ));
    assert(frame_plan(v) == p6);
    assert(head.contains(x) <==> (x == head[0] || x == head[1] || x == head[2])) by {
        if head.contains(x) {
            let k = choose|k: int| 0 <= k < head.len() && head[k] == x;
        }
    }
    assert(seq![DrawStep::LinePipeline].contains(x) <==> x == DrawStep::LinePipeline) by {
        if seq![DrawStep::LinePipeline].contains(x) {
            let k = choose|k: int| 0 <= k < 1 && seq![DrawStep::LinePipeline][k] == x;
        } else {
            assert(seq![DrawStep::LinePipeline][0] == DrawStep::LinePipeline);
        }
    }
    lemma_concat_contains(head, step_if(v.show_normals, DrawStep::Normals), x);
    lemma_step_if_contains(v.show_normals, DrawStep::Normals, x);
    lemma_concat_contains(p1, step_if(v.show_arrows, DrawStep::Arrows), x);
    lemma_step_if_contains(v.show_arrows, DrawStep::Arrows, x);
    lemma_concat_contains(p2, seq![DrawStep::LinePipeline], x);
    lemma_concat_contains(p3, step_if(v.show_grid_xz, DrawStep::Grid(GridPlane::XZ)), x);
    lemma_step_if_contains(v.show_grid_xz, DrawStep::Grid(GridPlane::XZ), x);
    lemma_concat_contains(p4, step_if(v.show_grid_xy, DrawStep::Grid(GridPlane::XY)), x);
    lemma_step_if_contains(v.show_grid_xy, DrawStep::Grid(GridPlane::XY), x);
    lemma_concat_contains(p5, step_if(v.show_grid_yz, DrawStep::Grid(GridPlane::YZ)), x);
    lemma_step_if_contains(v.show_grid_yz, DrawStep::Grid(GridPlane::YZ), x);
}

/// A frame always binds the body pipeline and then draws the meshes and the
/// bodies; it draws the normals exactly when they are shown, the arrows
/// exactly when they are shown, and no other step than these and the line
/// pipeline with the visible grids.
pub proof fn lemma_frame_plan_overlays(v: ViewOptions)
    ensures
        frame_plan(v)[1] == DrawStep::Meshes,
        frame_plan(v)[2] == DrawStep::Bodies,
        frame_plan(v).contains(DrawStep::Normals) <==> v.show_normals,
        frame_plan(v).contains(DrawStep::Arrows) <==> v.show_arrows,
        frame_plan(v).contains(DrawStep::BodyPipeline { wireframe: !v.wireframe }) == false,
{
    lemma_plan_contains(v, DrawStep::Normals);
    lemma_plan_contains(v, DrawStep::Arrows);
    lemma_plan_contains(v, DrawStep::BodyPipeline { wireframe: !v.wireframe });
    let head = seq![DrawStep::BodyPipeline { wireframe: v.wireframe }, DrawStep::Meshes, DrawStep::Bodies];
    let rest = step_if(v.show_normals, DrawStep::Normals) + step_if(v.show_arrows, DrawStep::Arrows)
        + seq![DrawStep::LinePipeline] + step_if(v.show_grid_xz, DrawStep::Grid(GridPlane::XZ))
        + step_if(v.show_grid_xy, DrawStep::Grid(GridPlane::XY))
        + step_if(v.show_grid_yz, DrawStep::Grid(GridPlane::YZ));
    assert(frame_plan(v) =~= head + rest);
    assert((head + rest)[1] == head[1]);
    assert((head + rest)[2] == head[2]);
}

} // verus!
