use sprite_ecs::animation::{advance, DeltaTime};
use sprite_ecs::component::{AnimatedSprite, Material, Texture, UvOffset};
use sprite_ecs::geometry::{Ratio, Rect};
use sprite_ecs::system::UpdateAnimatedSprite;
use sprite_ecs::ecs::new_world;
use specs::{Builder, WorldExt};

fn frames() -> Vec<Rect> {
    vec![
        Rect::new(32, 0, 224, 224),
        Rect::new(288, 0, 224, 224),
        Rect::new(32, 256, 224, 224),
    ]
}

fn sprite(frame: usize) -> AnimatedSprite {
    AnimatedSprite {
        rects: vec![frames()],
        rect_origin: frames()[0],
        current_anim: 0,
        current_frame: frame,
        frame_time: 500_000,
        tick: 0,
    }
}

fn material() -> Material {
    Material {
        shader: "offset_textured".to_string(),
        texture_name: "tileset.png".to_string(),
        program: None,
        texture: Texture { index: 7, width: 512, height: 512 },
        uv_offset: UvOffset { u: Ratio::new(0, 512), v: Ratio::new(0, 512) },
    }
}

#[test]
fn full_cycle_returns_to_start() {
    for start in 0..3 {
        let mut s = sprite(start);
        let mut m = material();
        for _ in 0..3 {
            advance(&mut s, &mut m, 500_000);
        }
        assert_eq!(s.current_frame, start);
    }
}

#[test]
fn offset_is_zero_on_origin_frame() {
    let mut s = sprite(2);
    let mut m = material();
    advance(&mut s, &mut m, 500_000);
    assert_eq!(s.current_frame, 0);
    assert_eq!(m.uv_offset.u.num, 0);
    assert_eq!(m.uv_offset.v.num, 0);
}

#[test]
fn offset_follows_frame() {
    let mut s = sprite(0);
    let mut m = material();
    advance(&mut s, &mut m, 500_000);
    assert_eq!(s.current_frame, 1);
    assert_eq!(m.uv_offset.u, Ratio::new(256, 512));
    assert_eq!(m.uv_offset.v, Ratio::new(0, 512));
    advance(&mut s, &mut m, 500_000);
    assert_eq!(m.uv_offset.u, Ratio::new(0, 512));
    assert_eq!(m.uv_offset.v, Ratio::new(256, 512));
}

#[test]
fn short_tick_keeps_frame() {
    let mut s = sprite(1);
    let mut m = material();
    m.uv_offset = UvOffset { u: Ratio::new(256, 512), v: Ratio::new(0, 512) };
    advance(&mut s, &mut m, 100_000);
    assert_eq!(s.current_frame, 1);
    assert_eq!(s.tick, 100_000);
    assert_eq!(m.uv_offset.u, Ratio::new(256, 512));
    advance(&mut s, &mut m, 200_000);
    assert_eq!(s.current_frame, 1);
    assert_eq!(s.tick, 300_000);
}

#[test]
fn long_tick_moves_one_frame() {
    let mut s = sprite(0);
    let mut m = material();
    advance(&mut s, &mut m, 1_700_000);
    assert_eq!(s.current_frame, 1);
    assert_eq!(s.tick, 0);
}

#[test]
fn accumulated_ticks_complete_a_frame() {
    let mut s = sprite(2);
    let mut m = material();
    advance(&mut s, &mut m, 300_000);
    advance(&mut s, &mut m, 200_000);
    assert_eq!(s.current_frame, 0);
    assert_eq!(s.tick, 0);
}

#[test]
fn huge_tick_does_not_overflow() {
    let mut s = sprite(0);
    s.tick = 400_000;
    let mut m = material();
    advance(&mut s, &mut m, u64::MAX);
    assert_eq!(s.current_frame, 1);
    assert_eq!(s.tick, 0);
}

#[test]
fn update_system_advances_entities_with_material() {
    let mut world = new_world();
    let a = world.create_entity().with(sprite(0)).with(material()).build();
    let b = world.create_entity().with(sprite(0)).build();
    UpdateAnimatedSprite.run(&DeltaTime(600_000), &mut world);
    let sprites = world.read_storage::<AnimatedSprite>();
    let materials = world.read_storage::<Material>();
    assert_eq!(sprites.get(a).unwrap().current_frame, 1);
    assert_eq!(materials.get(a).unwrap().uv_offset.u, Ratio::new(256, 512));
    assert_eq!(sprites.get(b).unwrap().current_frame, 0);
}

#[test]
fn update_system_skips_missing_frame() {
    let mut world = new_world();
    let mut broken = sprite(0);
    broken.current_anim = 4;
    let a = world.create_entity().with(broken).with(material()).build();
    UpdateAnimatedSprite.run(&DeltaTime(600_000), &mut world);
    let sprites = world.read_storage::<AnimatedSprite>();
    assert_eq!(sprites.get(a).unwrap().tick, 0);
    assert_eq!(sprites.get(a).unwrap().current_anim, 4);
}

#[test]
fn zero_frame_time_advances_every_tick() {
    let mut s = sprite(0);
    s.frame_time = 0;
    let mut m = material();
    advance(&mut s, &mut m, 0);
    assert_eq!(s.current_frame, 1);
    advance(&mut s, &mut m, 0);
    assert_eq!(s.current_frame, 2);
}

#[test]
fn other_sequence_advances_in_its_own_length() {
    let mut s = sprite(0);
    s.rects.push(vec![Rect::new(0, 0, 1, 1), Rect::new(1, 0, 1, 1)]);
    s.current_anim = 1;
    let mut m = material();
    advance(&mut s, &mut m, 500_000);
    assert_eq!(s.current_frame, 1);
    advance(&mut s, &mut m, 500_000);
    assert_eq!(s.current_frame, 0);
}
