use sprite_ecs::component::{AnimatedSprite, Material, Mesh, MeshBuffers, Sprite, Spritesheet, Texture};
use sprite_ecs::derive::{animated_resources, sprite_resources, DeriveError};
use sprite_ecs::ecs::new_world;
use sprite_ecs::geometry::{Ratio, Rect};
use sprite_ecs::init_system::{images_to_load, InitAnimatedSprite, InitSprite};
use sprite_ecs::render_system::InitRender;
use sprite_ecs::texture::{upload_format, PixelFormat, TextureCache};
use specs::{Builder, WorldExt};

fn value(r: Ratio) -> f64 {
    r.num as f64 / r.den as f64
}

fn tower() -> Texture {
    Texture { index: 3, width: 205, height: 198 }
}

#[test]
fn tower_quad_uv_and_extents() {
    let sprite = Sprite { image_name: "tower.png".to_string(), rect: Rect::new(0, 0, 205, 198) };
    let (mesh, material) = sprite_resources(&sprite, &tower()).unwrap();
    let uv: Vec<f64> = mesh.uv.iter().map(|r| value(*r)).collect();
    assert_eq!(uv, vec![0.0, 1.0, 1.0, 1.0, 1.0, 0.0, 0.0, 0.0]);
    let v: Vec<f64> = mesh.vertices.iter().map(|r| value(*r)).collect();
    assert_eq!(
        v,
        vec![-102.5, -99.0, 0.0, 102.5, -99.0, 0.0, 102.5, 99.0, 0.0, -102.5, 99.0, 0.0]
    );
    assert_eq!(mesh.indices, vec![0, 1, 2, 3]);
    assert_eq!(mesh.colors, vec![255u8; 16]);
    assert_eq!(mesh.buffers, None);
    assert_eq!(material.shader, "textured");
    assert_eq!(material.texture_name, "tower.png");
    assert_eq!(material.texture, tower());
    assert_eq!(material.program, None);
}

#[test]
fn sub_rect_uv() {
    let sprite = Sprite { image_name: "sheet.png".to_string(), rect: Rect::new(32, 256, 224, 224) };
    let tex = Texture { index: 1, width: 512, height: 512 };
    let (mesh, _) = sprite_resources(&sprite, &tex).unwrap();
    assert_eq!(mesh.uv[0], Ratio::new(32, 512));
    assert_eq!(mesh.uv[1], Ratio::new(480, 512));
    assert_eq!(mesh.uv[2], Ratio::new(256, 512));
    assert_eq!(mesh.uv[5], Ratio::new(256, 512));
    assert_eq!(mesh.vertices[0], Ratio::new(-224, 2));
}

#[test]
fn rect_outside_image_is_refused() {
    let sprite = Sprite { image_name: "tower.png".to_string(), rect: Rect::new(1, 0, 205, 198) };
    assert_eq!(sprite_resources(&sprite, &tower()).err(), Some(DeriveError::RectOutOfBounds));
}

#[test]
fn empty_texture_is_refused() {
    let sprite = Sprite { image_name: "tower.png".to_string(), rect: Rect::new(0, 0, 0, 0) };
    let tex = Texture { index: 0, width: 0, height: 10 };
    assert_eq!(sprite_resources(&sprite, &tex).err(), Some(DeriveError::EmptyTexture));
}

fn tileset_frames() -> Vec<Rect> {
    vec![Rect::new(32, 0, 224, 224), Rect::new(288, 0, 224, 224), Rect::new(32, 256, 224, 224)]
}

fn animated() -> AnimatedSprite {
    AnimatedSprite {
        rects: vec![tileset_frames()],
        rect_origin: tileset_frames()[0],
        current_anim: 0,
        current_frame: 0,
        frame_time: 500_000,
        tick: 0,
    }
}

fn sheet() -> Spritesheet {
    Spritesheet { image_name: "tileset.png".to_string(), rects: tileset_frames() }
}

#[test]
fn missing_frame_is_refused() {
    let mut a = animated();
    a.current_frame = 3;
    let tex = Texture { index: 1, width: 512, height: 512 };
    assert_eq!(animated_resources(&sheet(), &a, &tex).err(), Some(DeriveError::NoSuchFrame));
}

#[test]
fn animated_quad_from_current_frame() {
    let mut a = animated();
    a.current_frame = 1;
    let tex = Texture { index: 1, width: 512, height: 512 };
    let (mesh, material) = animated_resources(&sheet(), &a, &tex).unwrap();
    assert_eq!(mesh.uv[0], Ratio::new(288, 512));
    assert_eq!(mesh.uv[2], Ratio::new(512, 512));
    assert_eq!(material.shader, "offset_textured");
    assert_eq!(material.texture_name, "tileset.png");
}

#[test]
fn cache_keeps_first_texture_of_a_name() {
    let mut cache = TextureCache::new();
    cache.insert("a.png".to_string(), Texture { index: 1, width: 4, height: 4 });
    cache.insert("a.png".to_string(), Texture { index: 2, width: 8, height: 8 });
    cache.insert("b.png".to_string(), Texture { index: 3, width: 2, height: 2 });
    assert_eq!(cache.get(&"a.png".to_string()).unwrap().index, 1);
    assert_eq!(cache.get(&"b.png".to_string()).unwrap().index, 3);
    assert_eq!(cache.get(&"c.png".to_string()), None);
}

#[test]
fn upload_format_by_depth() {
    assert_eq!(upload_format(4), PixelFormat::Rgba);
    assert_eq!(upload_format(3), PixelFormat::Rgb);
}

#[test]
fn init_sprite_serves_pending_and_reports_failures() {
    let mut world = new_world();
    let good = world
        .create_entity()
        .with(Sprite { image_name: "tower.png".to_string(), rect: Rect::new(0, 0, 205, 198) })
        .build();
    let missing = world
        .create_entity()
        .with(Sprite { image_name: "none.png".to_string(), rect: Rect::new(0, 0, 1, 1) })
        .build();
    let mut cache = TextureCache::new();
    cache.insert("tower.png".to_string(), tower());
    let failed = InitSprite.run(&mut world, &cache);
    assert_eq!(failed, vec![(missing.id(), DeriveError::MissingImage)]);
    let meshes = world.read_storage::<Mesh>();
    assert!(meshes.get(good).is_some());
    assert!(meshes.get(missing).is_none());
}

#[test]
fn shared_spritesheet_gives_independent_instances() {
    let mut world = new_world();
    let a = world.create_entity().with(sheet()).with(animated()).build();
    let b = world.create_entity().with(sheet()).with(animated()).build();
    let mut cache = TextureCache::new();
    cache.insert("tileset.png".to_string(), Texture { index: 9, width: 512, height: 512 });
    let failed = InitAnimatedSprite.run(&mut world, &cache);
    assert!(failed.is_empty());
    {
        let meshes = world.read_storage::<Mesh>();
        assert_eq!(meshes.get(a).unwrap().uv, meshes.get(b).unwrap().uv);
    }
    let ha = MeshBuffers { vao: 1, vertex_vbo: 2, uv_vbo: 3, colors_vbo: 4, ibo: 5 };
    let hb = MeshBuffers { vao: 6, vertex_vbo: 7, uv_vbo: 8, colors_vbo: 9, ibo: 10 };
    assert!(InitRender.complete(&mut world, a.id(), 11, ha, None));
    {
        let meshes = world.read_storage::<Mesh>();
        let materials = world.read_storage::<Material>();
        assert_eq!(meshes.get(a).unwrap().buffers, Some(ha));
        assert_eq!(meshes.get(b).unwrap().buffers, None);
        assert_eq!(materials.get(a).unwrap().program, Some(11));
        assert_eq!(materials.get(b).unwrap().program, None);
    }
    assert!(InitRender.complete(&mut world, b.id(), 12, hb, None));
    let meshes = world.read_storage::<Mesh>();
    assert_ne!(meshes.get(a).unwrap().buffers, meshes.get(b).unwrap().buffers);
}

#[test]
fn each_needed_image_is_loaded_once() {
    let mut world = new_world();
    world
        .create_entity()
        .with(Sprite { image_name: "tower.png".to_string(), rect: Rect::new(0, 0, 1, 1) })
        .build();
    world
        .create_entity()
        .with(Sprite { image_name: "tower.png".to_string(), rect: Rect::new(1, 1, 1, 1) })
        .build();
    world.create_entity().with(sheet()).with(animated()).build();
    world.create_entity().with(sheet()).with(animated()).build();
    let served = world
        .create_entity()
        .with(Sprite { image_name: "done.png".to_string(), rect: Rect::new(0, 0, 1, 1) })
        .build();
    let mut cache = TextureCache::new();
    cache.insert("done.png".to_string(), Texture { index: 1, width: 1, height: 1 });
    let mesh = {
        let mut tmp = new_world();
        let e = tmp
            .create_entity()
            .with(Sprite { image_name: "done.png".to_string(), rect: Rect::new(0, 0, 1, 1) })
            .build();
        InitSprite.run(&mut tmp, &cache);
        let meshes = tmp.read_storage::<Mesh>();
        meshes.get(e).unwrap().clone()
    };
    world.write_storage::<Mesh>().insert(served, mesh).unwrap();
    let images = images_to_load(&world);
    assert_eq!(images, vec!["tower.png".to_string(), "tileset.png".to_string()]);
}
