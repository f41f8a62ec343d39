use astronomore::orbital::{OrbitDef, Vsop87Body};
use astronomore::planets::{bodies, SolarSystemBody, BODY_COUNT};

#[test]
fn parent_precedes_child_in_array() {
    // The scene relies on parents being inserted before their children, which
    // holds iff every body's parent has a smaller index.
    for (i, def) in bodies().iter().enumerate() {
        if let Some(parent) = def.parent {
            assert!(
                parent.index() < i,
                "{} (index {i}) has parent with index {}",
                def.name,
                parent.index()
            );
        }
    }
}

#[test]
fn discriminant_matches_array_index() {
    assert_eq!(SolarSystemBody::Sun.index(), 0);
    assert_eq!(SolarSystemBody::Earth.index(), 3);
    assert_eq!(SolarSystemBody::Neptune.index(), 9);
    assert_eq!(bodies().len(), 10);
}

#[test]
fn all_bodies_have_positive_radius() {
    for def in bodies() {
        let radius = def.radius_milli as f32 / 1000.0;
        assert!(radius > 0.0, "{} has radius {}", def.name, radius);
    }
}

#[test]
fn table_rows_match_bodies() {
    let defs = bodies();
    assert_eq!(defs.len(), BODY_COUNT);
    for (i, def) in defs.iter().enumerate() {
        let body = SolarSystemBody::from_index(i).unwrap();
        assert_eq!(def.name, body.name());
        assert_eq!(def.texture_path, body.texture_path());
        assert_eq!(body.index(), i);
    }
    assert_eq!(SolarSystemBody::from_index(10), None);
    assert_eq!(defs[0].name, "Sun");
    assert_eq!(defs[4].name, "Moon");
    assert_eq!(defs[4].parent, Some(SolarSystemBody::Earth));
    assert_eq!(defs[0].parent, None);
    assert_eq!(defs[7].texture_path, "assets/textures/2k_saturn.jpg");
    assert_eq!(defs[6].radius_milli, 11210);
    assert_eq!(defs[0].orbital_model, OrbitDef::Fixed);
    assert_eq!(
        defs[4].orbital_model,
        OrbitDef::Parametric { radius_milli: 3000, angular_velocity_nano: 2662 }
    );
    assert_eq!(defs[3].orbital_model, OrbitDef::Vsop87 { body: Vsop87Body::Earth });
}
