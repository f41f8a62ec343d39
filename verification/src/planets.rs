//! The ten bodies of the solar system as the viewer shows them.
use vstd::prelude::*;

use crate::orbital::{OrbitDef, Vsop87Body};

verus! {

/// Number of bodies in the table.
pub const BODY_COUNT: usize = 10;

/// The bodies of the table, in table order: every body comes after its parent.
#[derive(Clone, Copy, Debug, PartialEq, Eq, Hash, Structural)]
pub enum SolarSystemBody {
    Sun,
    Mercury,
    Venus,
    Earth,
    Moon,
    Mars,
    Jupiter,
    Saturn,
    Uranus,
    Neptune,
}

/// Pure data describing a celestial body before GPU resources are allocated.
#[derive(Clone, Copy, Debug)]
pub struct BodyDef {
    pub name: &'static str,
    pub texture_path: &'static str,
    /// Visual radius in thousandths of a scene unit (Earth = 1000).
    pub radius_milli: u32,
    pub orbital_model: OrbitDef,
    /// Parent body; it comes before this body in the table.
    pub parent: Option<SolarSystemBody>,
}

/// Position of a body in the table.
pub open spec fn body_index(b: SolarSystemBody) -> nat {
    match b {
        SolarSystemBody::Sun => 0,
        SolarSystemBody::Mercury => 1,
        SolarSystemBody::Venus => 2,
        SolarSystemBody::Earth => 3,
        SolarSystemBody::Moon => 4,
        SolarSystemBody::Mars => 5,
        SolarSystemBody::Jupiter => 6,
        SolarSystemBody::Saturn => 7,
        SolarSystemBody::Uranus => 8,
        SolarSystemBody::Neptune => 9,
    }
}

/// The body at a position of the table.
pub open spec fn body_at(i: int) -> Option<SolarSystemBody> {
    if i == 0 {
        Some(SolarSystemBody::Sun)
    } else if i == 1 {
        Some(SolarSystemBody::Mercury)
    } else if i == 2 {
        Some(SolarSystemBody::Venus)
    } else if i == 3 {
        Some(SolarSystemBody::Earth)
    } else if i == 4 {
        Some(SolarSystemBody::Moon)
    } else if i == 5 {
        Some(SolarSystemBody::Mars)
    } else if i == 6 {
        Some(SolarSystemBody::Jupiter)
    } else if i == 7 {
        Some(SolarSystemBody::Saturn)
    } else if i == 8 {
        Some(SolarSystemBody::Uranus)
    } else if i == 9 {
        Some(SolarSystemBody::Neptune)
    } else {
        None
    }
}

/// The body that a body orbits: the Moon orbits the Earth, the planets the Sun.
pub open spec fn body_parent(b: SolarSystemBody) -> Option<SolarSystemBody> {
    match b {
        SolarSystemBody::Sun => None,
        SolarSystemBody::Moon => Some(SolarSystemBody::Earth),
        _ => Some(SolarSystemBody::Sun),
    }
}

/// Display name of a body.
pub open spec fn body_name(b: SolarSystemBody) -> Seq<char> {
    match b {
        SolarSystemBody::Sun => "Sun"@,
        SolarSystemBody::Mercury => "Mercury"@,
        SolarSystemBody::Venus => "Venus"@,
        SolarSystemBody::Earth => "Earth"@,
        SolarSystemBody::Moon => "Moon"@,
        SolarSystemBody::Mars => "Mars"@,
        SolarSystemBody::Jupiter => "Jupiter"@,
        SolarSystemBody::Saturn => "Saturn"@,
        SolarSystemBody::Uranus => "Uranus"@,
        SolarSystemBody::Neptune => "Neptune"@,
    }
}

/// Path of a body's texture map.
pub open spec fn body_texture_path(b: SolarSystemBody) -> Seq<char> {
    match b {
        SolarSystemBody::Sun => "assets/textures/2k_sun.jpg"@,
        SolarSystemBody::Mercury => "assets/textures/2k_mercury.jpg"@,
        SolarSystemBody::Venus => "assets/textures/2k_venus_surface.jpg"@,
        SolarSystemBody::Earth => "assets/textures/2k_earth_daymap.jpg"@,
        SolarSystemBody::Moon => "assets/textures/2k_moon.jpg"@,
        SolarSystemBody::Mars => "assets/textures/2k_mars.jpg"@,
        SolarSystemBody::Jupiter => "assets/textures/2k_jupiter.jpg"@,
        SolarSystemBody::Saturn => "assets/textures/2k_saturn.jpg"@,
        SolarSystemBody::Uranus => "assets/textures/2k_uranus.jpg"@,
        SolarSystemBody::Neptune => "assets/textures/2k_neptune.jpg"@,
    }
}

/// Visual radius in thousandths of a scene unit.
pub open spec fn body_radius_milli(b: SolarSystemBody) -> u32 {
    match b {
        SolarSystemBody::Sun => 4000,
        SolarSystemBody::Mercury => 383,
        SolarSystemBody::Venus => 949,
        SolarSystemBody::Earth => 1000,
        SolarSystemBody::Moon => 273,
        SolarSystemBody::Mars => 532,
        SolarSystemBody::Jupiter => 11210,
        SolarSystemBody::Saturn => 9450,
        SolarSystemBody::Uranus => 4010,
        SolarSystemBody::Neptune => 3880,
    }
}

/// Moon orbital angular velocity: 2π / (27.32 days × 86 400 s/day), in nanoradians per second.
pub const MOON_ANGULAR_VELOCITY_NANO: u32 = 2662;

/// Distance of the Moon from the Earth in thousandths of a scene unit; the
/// real distance (~0.026 scene units) would be invisible.
pub const MOON_ORBIT_RADIUS_MILLI: u32 = 3000;

/// How a body moves: the Sun is fixed, the Moon circles the Earth, the
/// planets follow their VSOP87A solutions.
pub open spec fn body_orbit(b: SolarSystemBody) -> OrbitDef {
    match b {
        SolarSystemBody::Sun => OrbitDef::Fixed,
        SolarSystemBody::Mercury => OrbitDef::Vsop87 { body: Vsop87Body::Mercury },
        SolarSystemBody::Venus => OrbitDef::Vsop87 { body: Vsop87Body::Venus },
        SolarSystemBody::Earth => OrbitDef::Vsop87 { body: Vsop87Body::Earth },
        SolarSystemBody::Moon => OrbitDef::Parametric {
            radius_milli: MOON_ORBIT_RADIUS_MILLI,
            angular_velocity_nano: MOON_ANGULAR_VELOCITY_NANO,
        },
        SolarSystemBody::Mars => OrbitDef::Vsop87 { body: Vsop87Body::Mars },
        SolarSystemBody::Jupiter => OrbitDef::Vsop87 { body: Vsop87Body::Jupiter },
        SolarSystemBody::Saturn => OrbitDef::Vsop87 { body: Vsop87Body::Saturn },
        SolarSystemBody::Uranus => OrbitDef::Vsop87 { body: Vsop87Body::Uranus },
        SolarSystemBody::Neptune => OrbitDef::Vsop87 { body: Vsop87Body::Neptune },
    }
}

impl SolarSystemBody {
    /// Position of this body in the table returned by [`bodies`].
    pub fn index(self) -> (i: usize)
        ensures
            i == body_index(self),
    {
        match self {
            SolarSystemBody::Sun => 0,
            SolarSystemBody::Mercury => 1,
            SolarSystemBody::Venus => 2,
            SolarSystemBody::Earth => 3,
            SolarSystemBody::Moon => 4,
            SolarSystemBody::Mars => 5,
            SolarSystemBody::Jupiter => 6,
            SolarSystemBody::Saturn => 7,
            SolarSystemBody::Uranus => 8,
            SolarSystemBody::Neptune => 9,
        }
    }

    /// The body at position `i` of the table, if there is one.
    pub fn from_index(i: usize) -> (b: Option<SolarSystemBody>)
        ensures
            b == body_at(i as int),
    {
        match i {
            0 => Some(SolarSystemBody::Sun),
            1 => Some(SolarSystemBody::Mercury),
            2 => Some(SolarSystemBody::Venus),
            3 => Some(SolarSystemBody::Earth),
            4 => Some(SolarSystemBody::Moon),
            5 => Some(SolarSystemBody::Mars),
            6 => Some(SolarSystemBody::Jupiter),
            7 => Some(SolarSystemBody::Saturn),
            8 => Some(SolarSystemBody::Uranus),
            9 => Some(SolarSystemBody::Neptune),
            _ => None,
        }
    }

    /// Display name of the body.
    pub fn name(self) -> (n: &'static str)
        ensures
            n@ == body_name(self),
    {
        match self {
            SolarSystemBody::Sun => "Sun",
            SolarSystemBody::Mercury => "Mercury",
            SolarSystemBody::Venus => "Venus",
            SolarSystemBody::Earth => "Earth",
            SolarSystemBody::Moon => "Moon",
            SolarSystemBody::Mars => "Mars",
            SolarSystemBody::Jupiter => "Jupiter",
            SolarSystemBody::Saturn => "Saturn",
            SolarSystemBody::Uranus => "Uranus",
            SolarSystemBody::Neptune => "Neptune",
        }
    }

    /// Path of the body's texture map.
    pub fn texture_path(self) -> (p: &'static str)
        ensures
            p@ == body_texture_path(self),
    {
        match self {
            SolarSystemBody::Sun => "assets/textures/2k_sun.jpg",
            SolarSystemBody::Mercury => "assets/textures/2k_mercury.jpg",
            SolarSystemBody::Venus => "assets/textures/2k_venus_surface.jpg",
            SolarSystemBody::Earth => "assets/textures/2k_earth_daymap.jpg",
            SolarSystemBody::Moon => "assets/textures/2k_moon.jpg",
            SolarSystemBody::Mars => "assets/textures/2k_mars.jpg",
            SolarSystemBody::Jupiter => "assets/textures/2k_jupiter.jpg",
            SolarSystemBody::Saturn => "assets/textures/2k_saturn.jpg",
            SolarSystemBody::Uranus => "assets/textures/2k_uranus.jpg",
            SolarSystemBody::Neptune => "assets/textures/2k_neptune.jpg",
        }
    }

    /// Visual radius in thousandths of a scene unit (Earth = 1000).
    pub fn radius_milli(self) -> (r: u32)
        ensures
            r == body_radius_milli(self),
    {
        match self {
            SolarSystemBody::Sun => 4000,
            SolarSystemBody::Mercury => 383,
            SolarSystemBody::Venus => 949,
            SolarSystemBody::Earth => 1000,
            SolarSystemBody::Moon => 273,
            SolarSystemBody::Mars => 532,
            SolarSystemBody::Jupiter => 11210,
            SolarSystemBody::Saturn => 9450,
            SolarSystemBody::Uranus => 4010,
            SolarSystemBody::Neptune => 3880,
        }
    }

    /// How the body moves.
    pub fn orbit(self) -> (o: OrbitDef)
        ensures
            o == body_orbit(self),
    {
        match self {
            SolarSystemBody::Sun => OrbitDef::Fixed,
            SolarSystemBody::Mercury => OrbitDef::Vsop87 { body: Vsop87Body::Mercury },
            SolarSystemBody::Venus => OrbitDef::Vsop87 { body: Vsop87Body::Venus },
            SolarSystemBody::Earth => OrbitDef::Vsop87 { body: Vsop87Body::Earth },
            SolarSystemBody::Moon => OrbitDef::Parametric {
                radius_milli: MOON_ORBIT_RADIUS_MILLI,
                angular_velocity_nano: MOON_ANGULAR_VELOCITY_NANO,
            },
            SolarSystemBody::Mars => OrbitDef::Vsop87 { body: Vsop87Body::Mars },
            SolarSystemBody::Jupiter => OrbitDef::Vsop87 { body: Vsop87Body::Jupiter },
            SolarSystemBody::Saturn => OrbitDef::Vsop87 { body: Vsop87Body::Saturn },
            SolarSystemBody::Uranus => OrbitDef::Vsop87 { body: Vsop87Body::Uranus },
            SolarSystemBody::Neptune => OrbitDef::Vsop87 { body: Vsop87Body::Neptune },
        }
    }

    /// The body this body orbits, if any.
    pub fn parent(self) -> (p: Option<SolarSystemBody>)
        ensures
            p == body_parent(self),
    {
        match self {
            SolarSystemBody::Sun => None,
            SolarSystemBody::Moon => Some(SolarSystemBody::Earth),
            _ => Some(SolarSystemBody::Sun),
        }
    }

    /// The definition of this body.
    pub fn def(self) -> (d: BodyDef)
        ensures
            d.name@ == body_name(self),
            d.texture_path@ == body_texture_path(self),
            d.radius_milli == body_radius_milli(self),
            d.orbital_model == body_orbit(self),
            d.parent == body_parent(self),
    {
        BodyDef {
            name: self.name(),
            texture_path: self.texture_path(),
            radius_milli: self.radius_milli(),
            orbital_model: self.orbit(),
            parent: self.parent(),
        }
    }
}

/// The table of all bodies, in the order of [`SolarSystemBody::index`]:
/// parents always come before their children.
pub fn bodies() -> (defs: Vec<BodyDef>)
    ensures
        defs.len() == BODY_COUNT,
        forall|i: int|
            #![trigger defs[i]]
            0 <= i < defs.len() ==> {
                let b = body_at(i).unwrap();
                &&& defs[i].name@ == body_name(b)
                &&& defs[i].texture_path@ == body_texture_path(b)
                &&& defs[i].radius_milli == body_radius_milli(b)
                &&& defs[i].orbital_model == body_orbit(b)
                &&& defs[i].parent == body_parent(b)
            },
        forall|i: int|
            #![trigger defs[i]]
            0 <= i < defs.len() ==> (defs[i].parent matches Some(p) ==> body_index(p) < i),
{
    let mut defs: Vec<BodyDef> = Vec::new();
    let mut i: usize = 0;
    while i < BODY_COUNT
        invariant
            i <= BODY_COUNT,
            defs.len() == i,
            forall|j: int|
                #![trigger defs[j]]
                0 <= j < i ==> {
                    let b = body_at(j).unwrap();
                    &&& defs[j].name@ == body_name(b)
                    &&& defs[j].texture_path@ == body_texture_path(b)
                    &&& defs[j].radius_milli == body_radius_milli(b)
                    &&& defs[j].orbital_model == body_orbit(b)
                    &&& defs[j].parent == body_parent(b)
                },
        decreases BODY_COUNT - i,
    {
        let b = SolarSystemBody::from_index(i).unwrap();
        defs.push(b.def());
        i += 1;
    }
    defs
}

/// Every body of the table comes after its parent: the parent's index is
/// smaller than the body's own.
pub proof fn lemma_parent_precedes_child(b: SolarSystemBody)
    ensures
        body_parent(b) matches Some(p) ==> body_index(p) < body_index(b),
{
}

/// Index and position agree: the body at a body's index is that body, and
/// every index below the body count holds a body.
pub proof fn lemma_index_round_trip(b: SolarSystemBody, i: int)
    ensures
        body_at(body_index(b) as int) == Some(b),
        body_index(b) < BODY_COUNT,
        0 <= i < BODY_COUNT ==> (body_at(i) matches Some(c) && body_index(c) == i),
{
}

/// Every body of the table has a positive visual radius.
pub proof fn lemma_positive_radius(b: SolarSystemBody)
    ensures
        body_radius_milli(b) > 0,
{
}

/// The Sun is the one root of the table; the Moon orbits the Earth; the
/// eight planets (every other body) orbit the Sun.
pub proof fn lemma_orbits_of_the_sun(b: SolarSystemBody)
    ensures
        body_parent(SolarSystemBody::Sun) is None,
        body_parent(SolarSystemBody::Moon) == Some(SolarSystemBody::Earth),
        b != SolarSystemBody::Sun && b != SolarSystemBody::Moon ==> body_parent(b) == Some(SolarSystemBody::Sun),
{
}

/// A body's motion fits its parent: the VSOP87 solutions give heliocentric
/// positions, so a body follows one exactly when it orbits the Sun; the body
/// without parent is the fixed one.
pub proof fn lemma_orbit_fits_parent(b: SolarSystemBody)
    ensures
        (body_orbit(b) is Vsop87) <==> body_parent(b) == Some(SolarSystemBody::Sun),
        (body_orbit(b) is Fixed) <==> body_parent(b) is None,
{
}

} // verus!
