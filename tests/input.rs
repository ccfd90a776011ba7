use sprite_ecs::component::Transform;
use sprite_ecs::ecs::new_world;
use sprite_ecs::geometry::Vec3;
use sprite_ecs::input::{apply_input, Keyboard, KeycodeEx};
use sprite_ecs::system::KeyboardInput;
use specs::{Builder, WorldExt};

#[test]
fn left_step_from_hundred() {
    let mut t = Transform::at(Vec3::new(100, 100, 0));
    apply_input(&mut t, KeycodeEx::LeftArrow);
    assert_eq!(t.position, Vec3::new(90, 100, 0));
}

#[test]
fn no_key_keeps_position() {
    let mut t = Transform::at(Vec3::new(100, 100, 0));
    apply_input(&mut t, KeycodeEx::NoKey);
    assert_eq!(t.position, Vec3::new(100, 100, 0));
}

#[test]
fn each_direction_steps_ten() {
    let mut t = Transform::at(Vec3::new(0, 0, 5));
    apply_input(&mut t, KeycodeEx::RightArrow);
    assert_eq!(t.position, Vec3::new(10, 0, 5));
    apply_input(&mut t, KeycodeEx::UpArrow);
    assert_eq!(t.position, Vec3::new(10, 10, 5));
    apply_input(&mut t, KeycodeEx::DownArrow);
    apply_input(&mut t, KeycodeEx::DownArrow);
    assert_eq!(t.position, Vec3::new(10, -10, 5));
}

#[test]
fn step_saturates_at_range_edge() {
    let mut t = Transform::at(Vec3::new(i64::MIN + 3, i64::MAX - 1, 0));
    apply_input(&mut t, KeycodeEx::LeftArrow);
    apply_input(&mut t, KeycodeEx::UpArrow);
    assert_eq!(t.position, Vec3::new(i64::MIN, i64::MAX, 0));
}

#[test]
fn keyboard_defaults_to_no_key() {
    assert_eq!(Keyboard::default(), Keyboard(KeycodeEx::NoKey));
}

#[test]
fn keyboard_system_moves_every_transform() {
    let mut world = new_world();
    let a = world.create_entity().with(Transform::at(Vec3::new(100, 100, 0))).build();
    let b = world.create_entity().with(Transform::at(Vec3::new(300, 300, 0))).build();
    KeyboardInput.run(&Keyboard(KeycodeEx::LeftArrow), &mut world);
    let transforms = world.read_storage::<Transform>();
    assert_eq!(transforms.get(a).unwrap().position, Vec3::new(90, 100, 0));
    assert_eq!(transforms.get(b).unwrap().position, Vec3::new(290, 300, 0));
}

#[test]
fn last_direction_of_a_tick_wins() {
    let presses = vec![KeycodeEx::LeftArrow, KeycodeEx::UpArrow, KeycodeEx::NoKey];
    assert_eq!(Keyboard::from_presses(&presses), Keyboard(KeycodeEx::UpArrow));
    assert_eq!(Keyboard::from_presses(&vec![]), Keyboard(KeycodeEx::NoKey));
    assert_eq!(Keyboard::from_presses(&vec![KeycodeEx::NoKey]), Keyboard(KeycodeEx::NoKey));
}
