use catio::entity::Component;
use catio::entity::EntityBuilder;
use catio::fx::Fx;
use catio::render::Render;
use catio::render::Rgb;
use catio::shape::Shape;
use catio::vec2::Vec2;
use catio::world::World;

fn fx(raw: i64) -> Fx {
    Fx::from_raw(raw)
}

fn quiet_world() -> World {
    World::new(
        Vec2::from_ints(25, 25),
        Vec2::from_ints(1175, 775),
        Vec2::zero(),
        Fx::zero(),
        Fx::from_int(100),
    )
}

#[test]
fn entity_builder_test() {
    let entity = EntityBuilder::new()
        .with_physics_component(123)
        .with_render_component(456)
        .with_shape_component(123)
        .build();
    assert_eq!(123, entity.get_index_for(Component::Physics).unwrap());
    assert_eq!(456, entity.get_index_for(Component::Render).unwrap());
    assert_eq!(123, entity.get_index_for(Component::Shape).unwrap());
}

#[test]
fn entity_without_capability_has_no_index() {
    let entity = EntityBuilder::new().with_shape_component(7).build();
    assert_eq!(Some(7), entity.get_index_for(Component::Shape));
    assert_eq!(None, entity.get_index_for(Component::Physics));
    assert_eq!(None, entity.get_index_for(Component::Render));
    assert!(!entity.colliding);
}

#[test]
fn component_handles_are_sequential() {
    let mut world = quiet_world();
    let s0 = world.add_shape(Shape::Circle { radius: Fx::one() });
    let s1 = world.add_shape(Shape::Rect { w: Fx::one(), h: Fx::one() });
    assert_eq!((s0, s1), (0, 1));
    let r0 = world.add_render(Render { color: Rgb { r: 1, g: 2, b: 3 } });
    assert_eq!(r0, 0);
}

#[test]
fn spawn_ball_links_components() {
    let mut world = quiet_world();
    let idx = world.spawn_ball((100, 100), fx(1_000), Fx::one()).unwrap();
    assert_eq!(idx, 0);
    let entity = &world.entities[idx];
    let phys = entity.get_index_for(Component::Physics).unwrap();
    let shape = entity.get_index_for(Component::Shape).unwrap();
    assert_eq!(world.physics_components[phys].position, Vec2::from_ints(100, 100));
    // a tenth of a unit at one hundred pixels per unit is ten pixels
    match world.shape_components[shape] {
        Shape::Circle { radius } => assert_eq!(radius, Fx::from_int(10)),
        _ => panic!("expected a circle"),
    }
}

#[test]
fn spawn_ball_rejects_bad_mass() {
    let mut world = quiet_world();
    assert!(world.spawn_ball((100, 100), fx(1_000), Fx::zero()).is_none());
    assert_eq!(world.entities.len(), 0);
    assert_eq!(world.physics_components.len(), 0);
    assert_eq!(world.shape_components.len(), 0);
    assert_eq!(world.render_components.len(), 0);
}

#[test]
fn spawn_player_records_index() {
    let mut world = quiet_world();
    world.spawn_ball((200, 200), fx(1_000), Fx::one()).unwrap();
    let idx = world.spawn_player((600, 400), fx(5_000), fx(5_000), Fx::from_int(2)).unwrap();
    assert_eq!(world.player_entity_idx, Some(idx));
    assert_eq!(idx, 1);
}

#[test]
fn quiescent_world_stays_put() {
    // zero gravity, zero friction, bodies at rest and apart: a step
    // of any size moves nothing
    let mut world = quiet_world();
    world.spawn_ball((100, 100), fx(1_000), Fx::one()).unwrap();
    world.spawn_ball((500, 500), fx(1_000), Fx::one()).unwrap();
    for dt in [fx(160), fx(10_000), fx(1_000_000)] {
        world.update_physics(dt);
        assert_eq!(world.physics_components[0].position, Vec2::from_ints(100, 100));
        assert_eq!(world.physics_components[1].position, Vec2::from_ints(500, 500));
        assert_eq!(world.physics_components[0].velocity, Vec2::zero());
        assert!(!world.entities[0].colliding);
        assert!(!world.entities[1].colliding);
    }
}

#[test]
fn gravity_pulls_bodies_down() {
    let mut world = World::new(
        Vec2::from_ints(0, 0),
        Vec2::from_ints(10_000, 10_000),
        Vec2::from_ints(0, 10),
        Fx::zero(),
        Fx::from_int(100),
    );
    world.spawn_ball((100, 100), fx(1_000), Fx::one()).unwrap();
    // dt 0.5: velocity gains 5 down, position moves 2.5 down
    world.update_physics(fx(5_000));
    assert_eq!(world.physics_components[0].velocity, Vec2::from_ints(0, 5));
    assert_eq!(
        world.physics_components[0].position,
        Vec2::new(Fx::from_int(100), fx(1_025_000))
    );
}

#[test]
fn boundary_clamps_position_and_zeroes_velocity() {
    let mut world = quiet_world();
    let idx = world.spawn_ball((30, 400), fx(1_000), Fx::one()).unwrap();
    let phys = world.entities[idx].get_index_for(Component::Physics).unwrap();
    world.physics_components[phys].velocity = Vec2::from_ints(-1000, 2);
    world.update_physics(Fx::one());
    // the body crossed the left boundary: position exactly on it,
    // crossing velocity component exactly zero, the other kept
    let body = &world.physics_components[phys];
    assert_eq!(body.position.x, Fx::from_int(25));
    assert_eq!(body.velocity.x, Fx::zero());
    assert_eq!(body.position.y, Fx::from_int(402));
    assert_eq!(body.velocity.y, Fx::from_int(2));
}

#[test]
fn overlapping_circles_separate_in_one_step() {
    // radius ten circles at (100, 100) and (115, 100), at rest, no
    // gravity: the step detects depth five and pushes the bodies
    // apart to exactly twenty units
    let mut world = quiet_world();
    world.spawn_ball((100, 100), fx(1_000), Fx::one()).unwrap();
    world.spawn_ball((115, 100), fx(1_000), Fx::one()).unwrap();
    world.update_physics(fx(160));
    assert!(world.entities[0].colliding);
    assert!(world.entities[1].colliding);
    let a = world.physics_components[0].position;
    let b = world.physics_components[1].position;
    assert_eq!(a, Vec2::new(fx(975_000), Fx::from_int(100)));
    assert_eq!(b, Vec2::new(fx(1_175_000), Fx::from_int(100)));
    let distance = b.sub(a).magnitude();
    assert!(distance.raw >= 200_000);
    assert_eq!(distance, Fx::from_int(20));
}

#[test]
fn immovable_pair_marks_contact_but_stays_put() {
    // a mass so large that its inverse truncates to zero is
    // effectively immovable: contact is still flagged, but the
    // resolution is skipped rather than dividing by zero
    let mut world = quiet_world();
    world.spawn_ball((100, 100), fx(1_000), Fx::from_int(20_000)).unwrap();
    world.spawn_ball((115, 100), fx(1_000), Fx::from_int(20_000)).unwrap();
    assert_eq!(world.physics_components[0].inverse_mass, Fx::zero());
    world.update_physics(fx(160));
    assert!(world.entities[0].colliding);
    assert!(world.entities[1].colliding);
    assert_eq!(world.physics_components[0].position, Vec2::from_ints(100, 100));
    assert_eq!(world.physics_components[1].position, Vec2::from_ints(115, 100));
}

#[test]
fn entities_without_bodies_are_skipped() {
    let mut world = quiet_world();
    world.spawn_ball((100, 100), fx(1_000), Fx::one()).unwrap();
    let entity = EntityBuilder::new().with_shape_component(0).build();
    world.add_entity(entity);
    world.update_physics(fx(160));
    assert!(!world.entities[0].colliding);
    assert!(!world.entities[1].colliding);
}
