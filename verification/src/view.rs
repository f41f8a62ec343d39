//! Render options that the keyboard shortcuts and the control panel toggle.
use vstd::prelude::*;

verus! {

/// Toggleable render options driven by keyboard shortcuts and the control panel.
#[derive(Clone, Copy, Debug, PartialEq, Eq, Structural)]
pub struct ViewOptions {
    /// Use the wireframe pipeline.
    pub wireframe: bool,
    /// Overlay the per-vertex normals as line segments.
    pub show_normals: bool,
    /// Show the XZ grid (ground plane).
    pub show_grid_xz: bool,
    /// Show the XY grid (front-facing plane).
    pub show_grid_xy: bool,
    /// Show the YZ grid (side-facing plane).
    pub show_grid_yz: bool,
    /// Longitude segments for sphere tessellation (meridians).
    pub sphere_meridians: u32,
    /// Latitude segments for sphere tessellation (parallels).
    pub sphere_parallels: u32,
    /// Show name labels for each celestial body.
    pub show_body_names: bool,
    /// Year field of the "Jump to date" input (Gregorian).
    pub date_input_year: i32,
    /// Month field of the "Jump to date" input (1–12).
    pub date_input_month: u8,
    /// Day field of the "Jump to date" input (1–31).
    pub date_input_day: u8,
    /// Master toggle of the debug vector arrows.
    pub show_arrows: bool,
    /// Show velocity-direction arrows.
    pub arrows_velocity: bool,
    /// Show radial arrows toward the parent.
    pub arrows_radial: bool,
    /// Show spin-axis arrows.
    pub arrows_spin: bool,
    /// Show edge arrows pointing toward off-screen bodies.
    pub show_offscreen_indicators: bool,
}

impl ViewOptions {
    /// Default view: ground grid on, others off, solid fill, no normals overlay.
    pub fn new() -> (v: Self)
        ensures
            !v.wireframe,
            !v.show_normals,
            v.show_grid_xz,
            !v.show_grid_xy,
            !v.show_grid_yz,
            v.sphere_meridians == 128,
            v.sphere_parallels == 64,
            !v.show_body_names,
            v.date_input_year == 2000,
            v.date_input_month == 1,
            v.date_input_day == 1,
            !v.show_arrows,
            v.arrows_velocity,
            v.arrows_radial,
            v.arrows_spin,
            v.show_offscreen_indicators,
    {
        ViewOptions {
            wireframe: false,
            show_normals: false,
            show_grid_xz: true,
            show_grid_xy: false,
            show_grid_yz: false,
            sphere_meridians: 128,
            sphere_parallels: 64,
            show_body_names: false,
            date_input_year: 2000,
            date_input_month: 1,
            date_input_day: 1,
            show_arrows: false,
            arrows_velocity: true,
            arrows_radial: true,
            arrows_spin: true,
            show_offscreen_indicators: true,
        }
    }

    /// Flip the wireframe flag.
    pub fn toggle_wireframe(&mut self)
        ensures
            *final(self) == (ViewOptions { wireframe: !old(self).wireframe, ..*old(self) }),
    {
        self.wireframe = !self.wireframe;
    }

    /// Flip the normals-overlay flag.
    pub fn toggle_normals(&mut self)
        ensures
            *final(self) == (ViewOptions { show_normals: !old(self).show_normals, ..*old(self) }),
    {
        self.show_normals = !self.show_normals;
    }

    /// True if at least one grid plane is currently visible.
    pub fn any_grid_visible(&self) -> (b: bool)
        ensures
            b == (self.show_grid_xz || self.show_grid_xy || self.show_grid_yz),
    {
        self.show_grid_xz || self.show_grid_xy || self.show_grid_yz
    }

    /// Flip the body-name overlay flag.
    pub fn toggle_body_names(&mut self)
        ensures
            *final(self) == (ViewOptions { show_body_names: !old(self).show_body_names, ..*old(self) }),
    {
        self.show_body_names = !self.show_body_names;
    }

    /// G-key semantics: if any grid is visible, hide all; otherwise show all three.
    pub fn toggle_all_grids(&mut self)
        ensures
            *final(self) == grids_toggled(*old(self)),
    {
        let target = !self.any_grid_visible();
        self.show_grid_xz = target;
        self.show_grid_xy = target;
        self.show_grid_yz = target;
    }

    /// Flip the debug-arrows overlay flag.
    pub fn toggle_arrows(&mut self)
        ensures
            *final(self) == (ViewOptions { show_arrows: !old(self).show_arrows, ..*old(self) }),
    {
        self.show_arrows = !self.show_arrows;
    }

    /// Flip the off-screen body indicators flag.
    pub fn toggle_offscreen_indicators(&mut self)
        ensures
            *final(self) == (ViewOptions {
                show_offscreen_indicators: !old(self).show_offscreen_indicators,
                ..*old(self)
            }),
    {
        self.show_offscreen_indicators = !self.show_offscreen_indicators;
    }
}

impl Default for ViewOptions {
    fn default() -> (v: Self)
        ensures
            v == ViewOptions::spec_default(),
    {
        ViewOptions::new()
    }
}

impl ViewOptions {
    /// The default view of [`ViewOptions::new`].
    pub open spec fn spec_default() -> ViewOptions {
        ViewOptions {
            wireframe: false,
            show_normals: false,
            show_grid_xz: true,
            show_grid_xy: false,
            show_grid_yz: false,
            sphere_meridians: 128,
            sphere_parallels: 64,
            show_body_names: false,
            date_input_year: 2000,
            date_input_month: 1,
            date_input_day: 1,
            show_arrows: false,
            arrows_velocity: true,
            arrows_radial: true,
            arrows_spin: true,
            show_offscreen_indicators: true,
        }
    }
}

/// The view after the grid key: all three grids hidden if any was visible,
/// all three shown otherwise.
pub open spec fn grids_toggled(v: ViewOptions) -> ViewOptions {
    let target = !(v.show_grid_xz || v.show_grid_xy || v.show_grid_yz);
    ViewOptions { show_grid_xz: target, show_grid_xy: target, show_grid_yz: target, ..v }
}

/// After the grid key the three grids are all visible or all hidden, and a
/// second press restores a view whose grids were all visible or all hidden.
pub proof fn lemma_toggle_all_grids_twice(v: ViewOptions)
    ensures
        grids_toggled(v).show_grid_xz == grids_toggled(v).show_grid_xy,
        grids_toggled(v).show_grid_xy == grids_toggled(v).show_grid_yz,
        grids_toggled(grids_toggled(v)).show_grid_xz == (v.show_grid_xz || v.show_grid_xy || v.show_grid_yz),
        (v.show_grid_xz == v.show_grid_xy && v.show_grid_xy == v.show_grid_yz) ==> grids_toggled(grids_toggled(v)) == v,
{
}

} // verus!
