use sprite_ecs::component::{Material, Mesh, MeshBuffers, Sprite, Texture, Transform};
use sprite_ecs::ecs::new_world;
use sprite_ecs::geometry::{Rect, Vec3};
use sprite_ecs::init_system::InitSprite;
use sprite_ecs::paths::{shader_location, str_location_to_path};
use sprite_ecs::render_system::{InitRender, Render};
use sprite_ecs::texture::TextureCache;
use specs::{Builder, WorldExt};

#[test]
fn location_parts() {
    let parts = str_location_to_path("/opt/game", "shaders/textured.vs");
    assert_eq!(parts, vec!["/opt/game".to_string(), "shaders".to_string(), "textured.vs".to_string()]);
    let single = str_location_to_path("root", "tower.png");
    assert_eq!(single, vec!["root".to_string(), "tower.png".to_string()]);
    let empty = str_location_to_path("root", "");
    assert_eq!(empty, vec!["root".to_string(), String::new()]);
}

#[test]
fn shader_locations() {
    assert_eq!(shader_location("textured", "vs"), "shaders/textured.vs");
    assert_eq!(shader_location("offset_textured", "fs"), "shaders/offset_textured.fs");
}

fn tower_world() -> (specs::World, specs::Entity, specs::Entity) {
    let mut world = new_world();
    let drawn = world
        .create_entity()
        .with(Transform::at(Vec3::new(100, 100, 0)))
        .with(Sprite { image_name: "tower.png".to_string(), rect: Rect::new(0, 0, 205, 198) })
        .build();
    let hidden = world
        .create_entity()
        .with(Sprite { image_name: "tower.png".to_string(), rect: Rect::new(0, 0, 10, 10) })
        .build();
    let mut cache = TextureCache::new();
    cache.insert("tower.png".to_string(), Texture { index: 4, width: 205, height: 198 });
    assert!(InitSprite.run(&mut world, &cache).is_empty());
    (world, drawn, hidden)
}

#[test]
fn setup_requests_name_shader_sources() {
    let (world, drawn, hidden) = tower_world();
    let requests = InitRender.requests(&world);
    let ids: Vec<u32> = requests.iter().map(|(id, _)| *id).collect();
    assert_eq!(ids, vec![drawn.id(), hidden.id()]);
    assert_eq!(requests[0].1.vertex_location, "shaders/textured.vs");
    assert_eq!(requests[0].1.fragment_location, "shaders/textured.fs");
    assert_eq!(requests[0].1.texture_location, None);
}

#[test]
fn setup_request_asks_for_missing_texture() {
    let mut world = new_world();
    let e = world
        .create_entity()
        .with(Sprite { image_name: "tower.png".to_string(), rect: Rect::new(0, 0, 1, 1) })
        .build();
    let mut cache = TextureCache::new();
    cache.insert("tower.png".to_string(), Texture { index: 4, width: 205, height: 198 });
    InitSprite.run(&mut world, &cache);
    {
        let mut materials = world.write_storage::<Material>();
        materials.get_mut(e).unwrap().texture = Texture { index: 0, width: 0, height: 0 };
    }
    let requests = InitRender.requests(&world);
    assert_eq!(requests[0].1.texture_location, Some("tower.png".to_string()));
}

#[test]
fn only_set_up_entities_with_transform_are_drawn() {
    let (mut world, drawn, hidden) = tower_world();
    assert!(Render.run(&world).is_empty());
    let b = MeshBuffers { vao: 1, vertex_vbo: 2, uv_vbo: 3, colors_vbo: 4, ibo: 5 };
    let t = Texture { index: 8, width: 205, height: 198 };
    assert!(InitRender.complete(&mut world, drawn.id(), 21, b, Some(t)));
    assert!(!InitRender.complete(&mut world, drawn.id(), 22, b, None));
    assert!(InitRender.complete(&mut world, hidden.id(), 23, b, None));
    let calls = Render.run(&world);
    assert_eq!(calls.len(), 1);
    assert_eq!(calls[0].0, drawn.id());
    assert_eq!(calls[0].1.program, 21);
    assert_eq!(calls[0].1.texture, 8);
    assert_eq!(calls[0].1.buffers, b);
    assert_eq!(calls[0].1.transform.position, Vec3::new(100, 100, 0));
    assert!(InitRender.requests(&world).is_empty());
    let meshes = world.read_storage::<Mesh>();
    assert_eq!(meshes.get(drawn).unwrap().buffers, Some(b));
}
