use astronomore::planets::{SolarSystemBody, BODY_COUNT};
use astronomore::scene::{build_solar_system, Scene};

#[test]
fn add_returns_insertion_index() {
    let mut scene: Scene<u32> = Scene::new();
    let sun = scene.add_celestial_body(7, "Sun".to_string(), None);
    let earth = scene.add_celestial_body(8, "Earth".to_string(), Some(sun));
    let moon = scene.add_celestial_body(9, "Moon".to_string(), Some(earth));
    assert_eq!(sun.index(), 0);
    assert_eq!(earth.index(), 1);
    assert_eq!(moon.index(), 2);
    assert_eq!(scene.len(), 3);
    assert_eq!(scene.parent(moon), Some(earth));
    assert_eq!(scene.parent(sun), None);
    assert_eq!(*scene.body(earth), 8);
    assert_eq!(scene.name(moon), "Moon");
    *scene.body_mut(moon) = 42;
    assert_eq!(*scene.body(moon), 42);
    assert_eq!(scene.id_at(2), Some(moon));
    assert_eq!(scene.id_at(3), None);
}

#[test]
fn iter_bodies_lists_ids_and_names() {
    let mut scene: Scene<()> = Scene::new();
    let a = scene.add_celestial_body((), "a".to_string(), None);
    let b = scene.add_celestial_body((), "b".to_string(), Some(a));
    let list = scene.iter_bodies();
    assert_eq!(list, vec![(a, "a".to_string()), (b, "b".to_string())]);
}

#[test]
fn world_transforms_compose_parent_first() {
    // Translations along one axis: composing is adding offsets.
    let mut scene: Scene<()> = Scene::new();
    let sun = scene.add_celestial_body((), "Sun".to_string(), None);
    let earth = scene.add_celestial_body((), "Earth".to_string(), Some(sun));
    let moon = scene.add_celestial_body((), "Moon".to_string(), Some(earth));
    let mars = scene.add_celestial_body((), "Mars".to_string(), Some(sun));
    let relative: Vec<i64> = vec![5, 100, 3, 200];
    let world = scene.world_transforms(&relative, |a: i64, b: i64| a + b);
    assert_eq!(world, vec![5, 105, 108, 205]);
    for id in [sun, earth, moon, mars] {
        let t = scene.get_body_orbital_transform(id, &relative, |a: i64, b: i64| a + b);
        assert_eq!(t, world[id.index()]);
    }
}

#[test]
fn orbital_transform_puts_parents_on_the_left() {
    // Strings compose by concatenation, which shows the order of the factors.
    let mut scene: Scene<()> = Scene::new();
    let sun = scene.add_celestial_body((), "Sun".to_string(), None);
    let earth = scene.add_celestial_body((), "Earth".to_string(), Some(sun));
    let moon = scene.add_celestial_body((), "Moon".to_string(), Some(earth));
    let relative: Vec<&'static str> = vec!["S", "E", "M"];
    let leak = |a: &'static str, b: &'static str| -> &'static str { Box::leak(format!("{a}{b}").into_boxed_str()) };
    assert_eq!(scene.get_body_orbital_transform(moon, &relative, leak), "SEM");
    assert_eq!(scene.world_transforms(&relative, leak), vec!["S", "SE", "SEM"]);
}

#[test]
fn solar_system_hierarchy() {
    let payloads: Vec<usize> = (0..BODY_COUNT).collect();
    let (scene, ids) = build_solar_system(payloads);
    assert_eq!(scene.len(), BODY_COUNT);
    assert_eq!(ids.len(), BODY_COUNT);
    let moon = ids[SolarSystemBody::Moon.index()];
    let earth = ids[SolarSystemBody::Earth.index()];
    let sun = ids[SolarSystemBody::Sun.index()];
    assert_eq!(scene.parent(moon), Some(earth));
    assert_eq!(scene.parent(earth), Some(sun));
    assert_eq!(scene.parent(sun), None);
    assert_eq!(scene.name(moon), "Moon");
    assert_eq!(*scene.body(ids[9]), 9);
    let relative: Vec<i64> = (1..=BODY_COUNT as i64).collect();
    let world = scene.world_transforms(&relative, |a: i64, b: i64| a + b);
    // Moon: Sun (1) + Earth (4) + Moon (5).
    assert_eq!(world[SolarSystemBody::Moon.index()], 10);
    assert_eq!(scene.get_body_orbital_transform(moon, &relative, |a: i64, b: i64| a + b), 10);
}
