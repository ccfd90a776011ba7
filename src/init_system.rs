//! The initialisation systems, run once before the frame loop: they give every
//! sprite entity that has no mesh yet a quad and a material.
use vstd::prelude::*;
use crate::component::{AnimatedSprite, Mesh, Sprite, Spritesheet, Texture};
use crate::derive::{
    animated_error, animated_resources, animated_shader, is_fresh_material, is_quad_of, rect_error,
    sprite_resources, sprite_shader, DeriveError,
};
use crate::ecs::{
    alive_of, animated_sprites_in, animated_sprites_of, lemma_listed_before_step, listed_before,
    lists, meshes_in, meshes_of, materials_of, put_material, put_mesh, registered, sprites_in,
    sprites_of, spritesheets_in, spritesheets_of, transforms_of,
};
use crate::system::position_of;
use crate::texture::TextureCache;

verus! {

/// Gives each entity with a `Sprite` and no `Mesh` a quad and a material.
pub struct InitSprite;

/// Gives each entity with a `Spritesheet`, an `AnimatedSprite` and no `Mesh` a
/// quad sized from its current frame, and a material.
pub struct InitAnimatedSprite;

/// The error, if any, that keeps the sprite `s` from being derived.
pub open spec fn sprite_error(s: Sprite, cache: TextureCache) -> Option<DeriveError> {
    match cache.get_spec(s.image_name@) {
        None => Some(DeriveError::MissingImage),
        Some(t) => rect_error(s.rect, t),
    }
}

/// Entity `k` has a sprite and no mesh.
pub open spec fn sprite_pending(s: Map<u32, Sprite>, m: Map<u32, Mesh>, k: u32) -> bool {
    s.contains_key(k) && !m.contains_key(k)
}

/// Entity `k` is given a mesh by `InitSprite`.
pub open spec fn sprite_ready(s: Map<u32, Sprite>, m: Map<u32, Mesh>, cache: TextureCache, k: u32) -> bool {
    sprite_pending(s, m, k) && sprite_error(s[k], cache) is None
}

/// The entities that `InitSprite` cannot serve, with the reason.
pub open spec fn sprite_failures(s: Map<u32, Sprite>, m: Map<u32, Mesh>, cache: TextureCache) -> Map<
    u32,
    DeriveError,
> {
    Map::new(
        |k: u32| sprite_pending(s, m, k) && sprite_error(s[k], cache) is Some,
        |k: u32| sprite_error(s[k], cache)->Some_0,
    )
}

/// The texture that the image of entity `k`'s sprite was loaded as.
pub open spec fn sprite_texture(s: Map<u32, Sprite>, cache: TextureCache, k: u32) -> Texture {
    cache.get_spec(s[k].image_name@)->Some_0
}

impl InitSprite {
    /// Derives the resources of every pending sprite and returns the entities
    /// that could not be served, by increasing index.
    pub fn run(&mut self, world: &mut specs::World, textures: &TextureCache) -> (failed: Vec<
        (u32, DeriveError),
    >)
        requires
            registered(*old(world)),
        ensures
            registered(*final(world)),
            alive_of(*final(world)) == alive_of(*old(world)),
            forall|k: u32| #[trigger]
                meshes_of(*final(world)).contains_key(k) <==> meshes_of(*old(world)).contains_key(k)
                    || sprite_ready(sprites_of(*old(world)), meshes_of(*old(world)), *textures, k),
            forall|k: u32| #[trigger]
                meshes_of(*old(world)).contains_key(k) ==> meshes_of(*final(world))[k] == meshes_of(
                    *old(world),
                )[k],
            forall|k: u32| #[trigger]
                sprite_ready(sprites_of(*old(world)), meshes_of(*old(world)), *textures, k)
                    ==> is_quad_of(
                    meshes_of(*final(world))[k],
                    sprites_of(*old(world))[k].rect,
                    sprite_texture(sprites_of(*old(world)), *textures, k),
                ),
            forall|k: u32| #[trigger]
                materials_of(*final(world)).contains_key(k) <==> materials_of(
                    *old(world),
                ).contains_key(k) || sprite_ready(
                    sprites_of(*old(world)),
                    meshes_of(*old(world)),
                    *textures,
                    k,
                ),
            forall|k: u32| #[trigger]
                materials_of(*old(world)).contains_key(k) && !sprite_ready(
                    sprites_of(*old(world)),
                    meshes_of(*old(world)),
                    *textures,
                    k,
                ) ==> materials_of(*final(world))[k] == materials_of(*old(world))[k],
            forall|k: u32| #[trigger]
                sprite_ready(sprites_of(*old(world)), meshes_of(*old(world)), *textures, k)
                    ==> is_fresh_material(
                    materials_of(*final(world))[k],
                    sprite_shader(),
                    sprites_of(*old(world))[k].image_name@,
                    sprite_texture(sprites_of(*old(world)), *textures, k),
                ),
            lists(failed@, sprite_failures(sprites_of(*old(world)), meshes_of(*old(world)), *textures)),
            transforms_of(*final(world)) == transforms_of(*old(world)),
            sprites_of(*final(world)) == sprites_of(*old(world)),
            spritesheets_of(*final(world)) == spritesheets_of(*old(world)),
            animated_sprites_of(*final(world)) == animated_sprites_of(*old(world)),
    {
        let ghost w0 = *world;
        let ghost s0 = sprites_of(*world);
        let ghost m0 = meshes_of(*world);
        let ghost t0 = materials_of(*world);
        let ghost fails = sprite_failures(s0, m0, *textures);
        let sprites = sprites_in(world);
        let meshes = meshes_in(world);
        let mut failed: Vec<(u32, DeriveError)> = Vec::new();
        let mut i: usize = 0;
        while i < sprites.len()
            invariant
                registered(*world),
                alive_of(*world) == alive_of(w0),
                transforms_of(*world) == transforms_of(w0),
                sprites_of(*world) == sprites_of(w0),
                spritesheets_of(*world) == spritesheets_of(w0),
                animated_sprites_of(*world) == animated_sprites_of(w0),
                s0 == sprites_of(w0),
                m0 == meshes_of(w0),
                t0 == materials_of(w0),
                fails == sprite_failures(s0, m0, *textures),
                lists(sprites@, s0),
                lists(meshes@, m0),
                forall|j: int| 0 <= j < sprites@.len() ==> alive_of(w0).contains(#[trigger] sprites@[j].0),
                0 <= i <= sprites@.len(),
                forall|k: u32| #[trigger]
                    meshes_of(*world).contains_key(k) <==> m0.contains_key(k) || (sprite_ready(
                        s0,
                        m0,
                        *textures,
                        k,
                    ) && listed_before(sprites@, i as int, k)),
                forall|k: u32| #[trigger]
                    m0.contains_key(k) ==> meshes_of(*world)[k] == m0[k],
                forall|k: u32| #[trigger]
                    sprite_ready(s0, m0, *textures, k) && listed_before(sprites@, i as int, k)
                        ==> is_quad_of(
                        meshes_of(*world)[k],
                        s0[k].rect,
                        sprite_texture(s0, *textures, k),
                    ),
                forall|k: u32| #[trigger]
                    materials_of(*world).contains_key(k) <==> t0.contains_key(k) || (sprite_ready(
                        s0,
                        m0,
                        *textures,
                        k,
                    ) && listed_before(sprites@, i as int, k)),
                forall|k: u32| #[trigger]
                    t0.contains_key(k) && !(sprite_ready(s0, m0, *textures, k) && listed_before(
                        sprites@,
                        i as int,
                        k,
                    )) ==> materials_of(*world)[k] == t0[k],
                forall|k: u32| #[trigger]
                    sprite_ready(s0, m0, *textures, k) && listed_before(sprites@, i as int, k)
                        ==> is_fresh_material(
                        materials_of(*world)[k],
                        sprite_shader(),
                        s0[k].image_name@,
                        sprite_texture(s0, *textures, k),
                    ),
                forall|j: int|
                    #![trigger failed@[j]]
                    0 <= j < failed@.len() ==> fails.contains_key(failed@[j].0)
                        && fails[failed@[j].0] == failed@[j].1 && listed_before(
                        sprites@,
                        i as int,
                        failed@[j].0,
                    ),
                forall|k: u32| #[trigger]
                    fails.contains_key(k) && listed_before(sprites@, i as int, k) ==> exists|j: int|
                        0 <= j < failed@.len() && failed@[j].0 == k,
                forall|a: int, b: int| 0 <= a < b < failed@.len() ==> failed@[a].0 < failed@[b].0,
            decreases sprites.len() - i,
        {
            let id = sprites[i].0;
            let ghost wb = *world;
            let ghost fb = failed@;
            let has_mesh = position_of(&meshes, id).is_some();
            if !has_mesh {
                match textures.get(&sprites[i].1.image_name) {
                    None => {
                        failed.push((id, DeriveError::MissingImage));
                    },
                    Some(t) => {
                        match sprite_resources(&sprites[i].1, &t) {
                            Ok((mesh, material)) => {
                                put_mesh(world, id, mesh);
                                put_material(world, id, material);
                            },
                            Err(e) => {
                                failed.push((id, e));
                            },
                        }
                    },
                }
            }
            proof {
                let ghost e = sprites@[i as int];
                assert(s0.contains_key(e.0) && s0[e.0] == e.1);
                assert(id == e.0);
                assert(has_mesh == m0.contains_key(id));
                assert forall|k: u32| s0.contains_key(k) implies (listed_before(
                    sprites@,
                    i + 1,
                    k,
                ) <==> (listed_before(sprites@, i as int, k) || k == id)) by {
                    lemma_listed_before_step(sprites@, s0, i as int, k);
                }
                if i + 1 < sprites@.len() {
                    assert(id < sprites@[i + 1].0);
                }
                assert forall|j: int|
                    #![trigger failed@[j]]
                    0 <= j < failed@.len() implies fails.contains_key(failed@[j].0)
                    && fails[failed@[j].0] == failed@[j].1 && listed_before(
                    sprites@,
                    i + 1,
                    failed@[j].0,
                ) by {
                    if j < fb.len() {
                        assert(failed@[j] == fb[j]);
                        assert(fails.contains_key(fb[j].0));
                    }
                }
                assert forall|k: u32| #[trigger]
                    fails.contains_key(k) && listed_before(sprites@, i + 1, k) implies exists|j: int|
                    0 <= j < failed@.len() && failed@[j].0 == k by {
                    if k != id {
                        let j = choose|j: int| 0 <= j < fb.len() && fb[j].0 == k;
                        assert(failed@[j] == fb[j]);
                    } else {
                        assert(failed@[failed@.len() - 1].0 == k);
                    }
                }
                assert forall|a: int, b: int| 0 <= a < b < failed@.len() implies failed@[a].0
                    < failed@[b].0 by {
                    if b == fb.len() && failed@.len() > fb.len() {
                        assert(failed@[a] == fb[a]);
                        assert(fails.contains_key(fb[a].0));
                    } else {
                        assert(failed@[a] == fb[a]);
                        assert(failed@[b] == fb[b]);
                    }
                }
            }
            i = i + 1;
        }
        failed
    }
}

/// The error, if any, that keeps the animated entity with `sheet` and `anim`
/// from being derived.
pub open spec fn anim_error(sheet: Spritesheet, anim: AnimatedSprite, cache: TextureCache) -> Option<
    DeriveError,
> {
    match cache.get_spec(sheet.image_name@) {
        None => Some(DeriveError::MissingImage),
        Some(t) => animated_error(anim, t),
    }
}

/// Entity `k` has a spritesheet and an animated sprite, and no mesh.
pub open spec fn anim_pending(
    s: Map<u32, Spritesheet>,
    a: Map<u32, AnimatedSprite>,
    m: Map<u32, Mesh>,
    k: u32,
) -> bool {
    s.contains_key(k) && a.contains_key(k) && !m.contains_key(k)
}

/// Entity `k` is given a mesh by `InitAnimatedSprite`.
pub open spec fn anim_ready(
    s: Map<u32, Spritesheet>,
    a: Map<u32, AnimatedSprite>,
    m: Map<u32, Mesh>,
    cache: TextureCache,
    k: u32,
) -> bool {
    anim_pending(s, a, m, k) && anim_error(s[k], a[k], cache) is None
}

/// The entities that `InitAnimatedSprite` cannot serve, with the reason.
pub open spec fn anim_failures(
    s: Map<u32, Spritesheet>,
    a: Map<u32, AnimatedSprite>,
    m: Map<u32, Mesh>,
    cache: TextureCache,
) -> Map<u32, DeriveError> {
    Map::new(
        |k: u32| anim_pending(s, a, m, k) && anim_error(s[k], a[k], cache) is Some,
        |k: u32| anim_error(s[k], a[k], cache)->Some_0,
    )
}

/// The texture that the image of entity `k`'s spritesheet was loaded as.
pub open spec fn anim_texture(s: Map<u32, Spritesheet>, cache: TextureCache, k: u32) -> Texture {
    cache.get_spec(s[k].image_name@)->Some_0
}

impl InitAnimatedSprite {
    /// Derives the resources of every pending animated sprite and returns the
    /// entities that could not be served, by increasing index.
    pub fn run(&mut self, world: &mut specs::World, textures: &TextureCache) -> (failed: Vec<
        (u32, DeriveError),
    >)
        requires
            registered(*old(world)),
        ensures
            registered(*final(world)),
            alive_of(*final(world)) == alive_of(*old(world)),
            forall|k: u32| #[trigger]
                meshes_of(*final(world)).contains_key(k) <==> meshes_of(*old(world)).contains_key(k)
                    || anim_ready(spritesheets_of(*old(world)), animated_sprites_of(*old(world)), meshes_of(*old(world)), *textures, k),
            forall|k: u32| #[trigger]
                meshes_of(*old(world)).contains_key(k) ==> meshes_of(*final(world))[k] == meshes_of(
                    *old(world),
                )[k],
            forall|k: u32| #[trigger]
                anim_ready(spritesheets_of(*old(world)), animated_sprites_of(*old(world)), meshes_of(*old(world)), *textures, k)
                    ==> is_quad_of(
                    meshes_of(*final(world))[k],
                    animated_sprites_of(*old(world))[k].current_rect(),
                    anim_texture(spritesheets_of(*old(world)), *textures, k),
                ),
            forall|k: u32| #[trigger]
                materials_of(*final(world)).contains_key(k) <==> materials_of(
                    *old(world),
                ).contains_key(k) || anim_ready(
                    spritesheets_of(*old(world)),
                    animated_sprites_of(*old(world)),
                    meshes_of(*old(world)),
                    *textures,
                    k,
                ),
            forall|k: u32| #[trigger]
                materials_of(*old(world)).contains_key(k) && !anim_ready(
                    spritesheets_of(*old(world)),
                    animated_sprites_of(*old(world)),
                    meshes_of(*old(world)),
                    *textures,
                    k,
                ) ==> materials_of(*final(world))[k] == materials_of(*old(world))[k],
            forall|k: u32| #[trigger]
                anim_ready(spritesheets_of(*old(world)), animated_sprites_of(*old(world)), meshes_of(*old(world)), *textures, k)
                    ==> is_fresh_material(
                    materials_of(*final(world))[k],
                    animated_shader(),
                    spritesheets_of(*old(world))[k].image_name@,
                    anim_texture(spritesheets_of(*old(world)), *textures, k),
                ),
            lists(
                failed@,
                anim_failures(
                    spritesheets_of(*old(world)),
                    animated_sprites_of(*old(world)),
                    meshes_of(*old(world)),
                    *textures,
                ),
            ),
            transforms_of(*final(world)) == transforms_of(*old(world)),
            sprites_of(*final(world)) == sprites_of(*old(world)),
            spritesheets_of(*final(world)) == spritesheets_of(*old(world)),
            animated_sprites_of(*final(world)) == animated_sprites_of(*old(world)),
    {
        let ghost w0 = *world;
        let ghost s0 = spritesheets_of(*world);
        let ghost a0 = animated_sprites_of(*world);
        let ghost m0 = meshes_of(*world);
        let ghost t0 = materials_of(*world);
        let ghost fails = anim_failures(s0, a0, m0, *textures);
        let sheets = spritesheets_in(world);
        let anims = animated_sprites_in(world);
        let meshes = meshes_in(world);
        let mut failed: Vec<(u32, DeriveError)> = Vec::new();
        let mut i: usize = 0;
        while i < sheets.len()
            invariant
                registered(*world),
                alive_of(*world) == alive_of(w0),
                transforms_of(*world) == transforms_of(w0),
                sprites_of(*world) == sprites_of(w0),
                spritesheets_of(*world) == spritesheets_of(w0),
                animated_sprites_of(*world) == animated_sprites_of(w0),
                s0 == spritesheets_of(w0),
                a0 == animated_sprites_of(w0),
                lists(anims@, a0),
                m0 == meshes_of(w0),
                t0 == materials_of(w0),
                fails == anim_failures(s0, a0, m0, *textures),
                lists(sheets@, s0),
                lists(meshes@, m0),
                forall|j: int| 0 <= j < sheets@.len() ==> alive_of(w0).contains(#[trigger] sheets@[j].0),
                0 <= i <= sheets@.len(),
                forall|k: u32| #[trigger]
                    meshes_of(*world).contains_key(k) <==> m0.contains_key(k) || (anim_ready(
                        s0,
                        a0,
                        m0,
                        *textures,
                        k,
                    ) && listed_before(sheets@, i as int, k)),
                forall|k: u32| #[trigger]
                    m0.contains_key(k) ==> meshes_of(*world)[k] == m0[k],
                forall|k: u32| #[trigger]
                    anim_ready(s0, a0, m0, *textures, k) && listed_before(sheets@, i as int, k)
                        ==> is_quad_of(
                        meshes_of(*world)[k],
                        a0[k].current_rect(),
                        anim_texture(s0, *textures, k),
                    ),
                forall|k: u32| #[trigger]
                    materials_of(*world).contains_key(k) <==> t0.contains_key(k) || (anim_ready(
                        s0,
                        a0,
                        m0,
                        *textures,
                        k,
                    ) && listed_before(sheets@, i as int, k)),
                forall|k: u32| #[trigger]
                    t0.contains_key(k) && !(anim_ready(s0, a0, m0, *textures, k) && listed_before(
                        sheets@,
                        i as int,
                        k,
                    )) ==> materials_of(*world)[k] == t0[k],
                forall|k: u32| #[trigger]
                    anim_ready(s0, a0, m0, *textures, k) && listed_before(sheets@, i as int, k)
                        ==> is_fresh_material(
                        materials_of(*world)[k],
                        animated_shader(),
                        s0[k].image_name@,
                        anim_texture(s0, *textures, k),
                    ),
                forall|j: int|
                    #![trigger failed@[j]]
                    0 <= j < failed@.len() ==> fails.contains_key(failed@[j].0)
                        && fails[failed@[j].0] == failed@[j].1 && listed_before(
                        sheets@,
                        i as int,
                        failed@[j].0,
                    ),
                forall|k: u32| #[trigger]
                    fails.contains_key(k) && listed_before(sheets@, i as int, k) ==> exists|j: int|
                        0 <= j < failed@.len() && failed@[j].0 == k,
                forall|a: int, b: int| 0 <= a < b < failed@.len() ==> failed@[a].0 < failed@[b].0,
            decreases sheets.len() - i,
        {
            let id = sheets[i].0;
            let ghost wb = *world;
            let ghost fb = failed@;
            let has_mesh = position_of(&meshes, id).is_some();
            let anim_at = position_of(&anims, id);
            if !has_mesh && anim_at.is_some() {
                let j = anim_at.unwrap();
                match textures.get(&sheets[i].1.image_name) {
                    None => {
                        failed.push((id, DeriveError::MissingImage));
                    },
                    Some(t) => {
                        match animated_resources(&sheets[i].1, &anims[j].1, &t) {
                            Ok((mesh, material)) => {
                                put_mesh(world, id, mesh);
                                put_material(world, id, material);
                            },
                            Err(e) => {
                                failed.push((id, e));
                            },
                        }
                    },
                }
            }
            proof {
                let ghost e = sheets@[i as int];
                assert(s0.contains_key(e.0) && s0[e.0] == e.1);
                assert(id == e.0);
                assert(has_mesh == m0.contains_key(id));
                assert(anim_at is Some <==> a0.contains_key(id)) by {
                    if a0.contains_key(id) {
                        let j = choose|j: int| 0 <= j < anims@.len() && anims@[j].0 == id;
                        assert(anims@[j].0 == id);
                    }
                }
                if anim_at is Some {
                    let ghost g = anims@[anim_at->Some_0 as int];
                    assert(a0.contains_key(g.0) && a0[g.0] == g.1);
                }
                assert forall|k: u32| s0.contains_key(k) implies (listed_before(
                    sheets@,
                    i + 1,
                    k,
                ) <==> (listed_before(sheets@, i as int, k) || k == id)) by {
                    lemma_listed_before_step(sheets@, s0, i as int, k);
                }
                if i + 1 < sheets@.len() {
                    assert(id < sheets@[i + 1].0);
                }
                assert forall|j: int|
                    #![trigger failed@[j]]
                    0 <= j < failed@.len() implies fails.contains_key(failed@[j].0)
                    && fails[failed@[j].0] == failed@[j].1 && listed_before(
                    sheets@,
                    i + 1,
                    failed@[j].0,
                ) by {
                    if j < fb.len() {
                        assert(failed@[j] == fb[j]);
                        assert(fails.contains_key(fb[j].0));
                    }
                }
                assert forall|k: u32| #[trigger]
                    fails.contains_key(k) && listed_before(sheets@, i + 1, k) implies exists|j: int|
                    0 <= j < failed@.len() && failed@[j].0 == k by {
                    if k != id {
                        let j = choose|j: int| 0 <= j < fb.len() && fb[j].0 == k;
                        assert(failed@[j] == fb[j]);
                    } else {
                        assert(failed@[failed@.len() - 1].0 == k);
                    }
                }
                assert forall|a: int, b: int| 0 <= a < b < failed@.len() implies failed@[a].0
                    < failed@[b].0 by {
                    if b == fb.len() && failed@.len() > fb.len() {
                        assert(failed@[a] == fb[a]);
                        assert(fails.contains_key(fb[a].0));
                    } else {
                        assert(failed@[a] == fb[a]);
                        assert(failed@[b] == fb[b]);
                    }
                }
            }
            i = i + 1;
        }
        failed
    }
}

/// Whether `v` holds a string equal to `name`.
pub fn holds_name(v: &Vec<String>, name: &String) -> (r: bool)
    ensures
        r == exists|i: int| 0 <= i < v@.len() && #[trigger] v@[i]@ == name@,
{
    let mut j: usize = 0;
    while j < v.len()
        invariant
            0 <= j <= v@.len(),
            forall|i: int| 0 <= i < j ==> #[trigger] v@[i]@ != name@,
        decreases v.len() - j,
    {
        if v[j] == *name {
            return true;
        }
        j = j + 1;
    }
    false
}

/// `name` is the image of an entity that one of the two sprite
/// initialisation systems will serve.
pub open spec fn image_needed(w: specs::World, name: Seq<char>) -> bool {
    exists|k: u32|
        (sprite_pending(sprites_of(w), meshes_of(w), k) && #[trigger] sprites_of(w)[k].image_name@ == name)
            || (anim_pending(spritesheets_of(w), animated_sprites_of(w), meshes_of(w), k)
            && spritesheets_of(w)[k].image_name@ == name)
}

/// The images of the entities of `wanted` that have no mesh in `m0`.
pub open spec fn missing_images(wanted: Map<u32, Seq<char>>, m0: Map<u32, Mesh>) -> Set<Seq<char>> {
    Set::new(|n: Seq<char>| exists|k: u32| #[trigger] wanted.contains_key(k) && !m0.contains_key(k) && wanted[k] == n)
}

/// Appends the image of each listed entity that still needs a mesh, unless
/// `names` already holds it.
fn add_images(
    names: &mut Vec<String>,
    list: &Vec<(u32, String)>,
    meshes: &Vec<(u32, Mesh)>,
    wanted: Ghost<Map<u32, Seq<char>>>,
    m0: Ghost<Map<u32, Mesh>>,
)
    requires
        lists(meshes@, m0@),
        forall|j: int| #![trigger list@[j]] 0 <= j < list@.len() ==> wanted@.contains_key(list@[j].0) && wanted@[list@[j].0] == list@[j].1@,
        forall|k: u32| #[trigger] wanted@.contains_key(k) ==> exists|j: int| 0 <= j < list@.len() && list@[j].0 == k,
        forall|a: int, b: int| 0 <= a < b < old(names)@.len() ==> old(names)@[a]@ != old(names)@[b]@,
    ensures
        forall|a: int, b: int| 0 <= a < b < final(names)@.len() ==> final(names)@[a]@ != final(names)@[b]@,
        old(names)@.len() <= final(names)@.len(),
        forall|i: int| 0 <= i < old(names)@.len() ==> final(names)@[i] == old(names)@[i],
        forall|i: int|
            old(names)@.len() <= i < final(names)@.len() ==> missing_images(wanted@, m0@).contains(
                #[trigger] final(names)@[i]@,
            ),
        forall|k: u32| #[trigger]
            wanted@.contains_key(k) && !m0@.contains_key(k) ==> exists|i: int|
                0 <= i < final(names)@.len() && final(names)@[i]@ == wanted@[k],
{
    let ghost n0 = names@;
    let mut i: usize = 0;
    while i < list.len()
        invariant
            lists(meshes@, m0@),
            forall|j: int| #![trigger list@[j]] 0 <= j < list@.len() ==> wanted@.contains_key(list@[j].0) && wanted@[list@[j].0] == list@[j].1@,
            forall|a: int, b: int| 0 <= a < b < names@.len() ==> names@[a]@ != names@[b]@,
            0 <= i <= list@.len(),
            n0.len() <= names@.len(),
            forall|x: int| 0 <= x < n0.len() ==> names@[x] == n0[x],
            forall|x: int|
                n0.len() <= x < names@.len() ==> missing_images(wanted@, m0@).contains(
                    #[trigger] names@[x]@,
                ),
            forall|j: int|
                #![trigger list@[j]]
                0 <= j < i && !m0@.contains_key(list@[j].0) ==> exists|x: int|
                    0 <= x < names@.len() && names@[x]@ == list@[j].1@,
        decreases list.len() - i,
    {
        let id = list[i].0;
        let ghost nb = names@;
        let has_mesh = position_of(meshes, id).is_some();
        proof {
            assert(has_mesh == m0@.contains_key(id)) by {
                if m0@.contains_key(id) {
                    let j = choose|j: int| 0 <= j < meshes@.len() && meshes@[j].0 == id;
                    assert(meshes@[j].0 == id);
                }
            }
            assert(wanted@.contains_key(list@[i as int].0));
        }
        if !has_mesh && !holds_name(names, &list[i].1) {
            names.push(list[i].1.clone());
            proof {
                assert forall|a: int, b: int| 0 <= a < b < names@.len() implies names@[a]@ != names@[b]@ by {
                    if b == nb.len() {
                        assert(names@[a] == nb[a]);
                    } else {
                        assert(names@[a] == nb[a]);
                        assert(names@[b] == nb[b]);
                    }
                }
            }
        }
        proof {
            assert forall|x: int|
                n0.len() <= x < names@.len() implies missing_images(wanted@, m0@).contains(
                #[trigger] names@[x]@,
            ) by {
                if x < nb.len() {
                    assert(names@[x] == nb[x]);
                } else {
                    assert(wanted@.contains_key(id) && !m0@.contains_key(id) && wanted@[id] == names@[x]@);
                }
            }
            assert forall|j: int|
                #![trigger list@[j]]
                0 <= j < i + 1 && !m0@.contains_key(list@[j].0) implies exists|x: int|
                0 <= x < names@.len() && names@[x]@ == list@[j].1@ by {
                if j < i {
                    let x = choose|x: int| 0 <= x < nb.len() && nb[x]@ == list@[j].1@;
                    assert(names@[x] == nb[x]);
                } else if names@.len() == nb.len() {
                    let x = choose|x: int| 0 <= x < nb.len() && #[trigger] nb[x]@ == list@[i as int].1@;
                    assert(names@[x] == nb[x]);
                } else {
                    assert(names@[names@.len() - 1]@ == list@[i as int].1@);
                }
            }
        }
        i = i + 1;
    }
    proof {
        assert forall|k: u32| #[trigger]
            wanted@.contains_key(k) && !m0@.contains_key(k) implies exists|i: int|
            0 <= i < names@.len() && names@[i]@ == wanted@[k] by {
            let j = choose|j: int| 0 <= j < list@.len() && list@[j].0 == k;
            assert(wanted@.contains_key(list@[j].0));
        }
    }
}

/// Image names of the sprites of `m`.
pub open spec fn sprite_images(m: Map<u32, Sprite>) -> Map<u32, Seq<char>> {
    Map::new(|k: u32| m.contains_key(k), |k: u32| m[k].image_name@)
}

/// Image names of the spritesheets of `m`.
pub open spec fn sheet_images(m: Map<u32, Spritesheet>) -> Map<u32, Seq<char>> {
    Map::new(|k: u32| m.contains_key(k), |k: u32| m[k].image_name@)
}

fn sprite_names(list: &Vec<(u32, Sprite)>) -> (r: Vec<(u32, String)>)
    ensures
        r@.len() == list@.len(),
        forall|j: int| #![trigger r@[j]] 0 <= j < r@.len() ==> r@[j].0 == list@[j].0 && r@[j].1@ == list@[j].1.image_name@,
{
    let mut r: Vec<(u32, String)> = Vec::new();
    let mut i: usize = 0;
    while i < list.len()
        invariant
            0 <= i <= list@.len(),
            r@.len() == i,
            forall|j: int| #![trigger r@[j]] 0 <= j < i ==> r@[j].0 == list@[j].0 && r@[j].1@ == list@[j].1.image_name@,
        decreases list.len() - i,
    {
        r.push((list[i].0, list[i].1.image_name.clone()));
        i = i + 1;
    }
    r
}

fn sheet_names(list: &Vec<(u32, Spritesheet)>) -> (r: Vec<(u32, String)>)
    ensures
        r@.len() == list@.len(),
        forall|j: int| #![trigger r@[j]] 0 <= j < r@.len() ==> r@[j].0 == list@[j].0 && r@[j].1@ == list@[j].1.image_name@,
{
    let mut r: Vec<(u32, String)> = Vec::new();
    let mut i: usize = 0;
    while i < list.len()
        invariant
            0 <= i <= list@.len(),
            r@.len() == i,
            forall|j: int| #![trigger r@[j]] 0 <= j < i ==> r@[j].0 == list@[j].0 && r@[j].1@ == list@[j].1.image_name@,
        decreases list.len() - i,
    {
        r.push((list[i].0, list[i].1.image_name.clone()));
        i = i + 1;
    }
    r
}

/// The images to load before the sprite initialisation systems run, each
/// once: those of the sprites and spritesheets of entities without a mesh.
pub fn images_to_load(world: &specs::World) -> (r: Vec<String>)
    requires
        registered(*world),
    ensures
        forall|a: int, b: int| 0 <= a < b < r@.len() ==> r@[a]@ != r@[b]@,
        forall|i: int|
            0 <= i < r@.len() ==> #[trigger] missing_images(sprite_images(sprites_of(*world)), meshes_of(*world)).contains(r@[i]@)
                || missing_images(sheet_images(spritesheets_of(*world)), meshes_of(*world)).contains(r@[i]@),
        forall|k: u32| #[trigger]
            sprite_pending(sprites_of(*world), meshes_of(*world), k) ==> exists|i: int|
                0 <= i < r@.len() && r@[i]@ == sprites_of(*world)[k].image_name@,
        forall|k: u32| #[trigger]
            spritesheets_of(*world).contains_key(k) && !meshes_of(*world).contains_key(k) ==> exists|i: int|
                0 <= i < r@.len() && r@[i]@ == spritesheets_of(*world)[k].image_name@,
{
    let ghost sw = sprite_images(sprites_of(*world));
    let ghost hw = sheet_images(spritesheets_of(*world));
    let ghost m0 = meshes_of(*world);
    let sprites = sprites_in(world);
    let sheets = spritesheets_in(world);
    let meshes = meshes_in(world);
    let snames = sprite_names(&sprites);
    let hnames = sheet_names(&sheets);
    proof {
        assert forall|j: int| #![trigger snames@[j]] 0 <= j < snames@.len() implies sw.contains_key(snames@[j].0) && sw[snames@[j].0] == snames@[j].1@ by {
            assert(sprites@[j].0 == snames@[j].0);
        }
        assert forall|k: u32| #[trigger] sw.contains_key(k) implies exists|j: int| 0 <= j < snames@.len() && snames@[j].0 == k by {
            let j = choose|j: int| 0 <= j < sprites@.len() && sprites@[j].0 == k;
            assert(snames@[j].0 == k);
        }
        assert forall|j: int| #![trigger hnames@[j]] 0 <= j < hnames@.len() implies hw.contains_key(hnames@[j].0) && hw[hnames@[j].0] == hnames@[j].1@ by {
            assert(sheets@[j].0 == hnames@[j].0);
        }
        assert forall|k: u32| #[trigger] hw.contains_key(k) implies exists|j: int| 0 <= j < hnames@.len() && hnames@[j].0 == k by {
            let j = choose|j: int| 0 <= j < sheets@.len() && sheets@[j].0 == k;
            assert(hnames@[j].0 == k);
        }
    }
    let mut names: Vec<String> = Vec::new();
    add_images(&mut names, &snames, &meshes, Ghost(sw), Ghost(m0));
    let ghost first = names@;
    add_images(&mut names, &hnames, &meshes, Ghost(hw), Ghost(m0));
    proof {
        assert forall|k: u32| #[trigger] sprite_pending(sprites_of(*world), meshes_of(*world), k) implies exists|i: int|
            0 <= i < names@.len() && names@[i]@ == sprites_of(*world)[k].image_name@ by {
            assert(sw.contains_key(k) && !m0.contains_key(k));
            let i = choose|i: int| 0 <= i < first.len() && first[i]@ == sw[k];
            assert(names@[i] == first[i]);
        }
        assert forall|k: u32| #[trigger]
            spritesheets_of(*world).contains_key(k) && !meshes_of(*world).contains_key(k) implies exists|i: int|
            0 <= i < names@.len() && names@[i]@ == spritesheets_of(*world)[k].image_name@ by {
            assert(hw.contains_key(k) && !m0.contains_key(k));
        }
        assert forall|i: int|
            0 <= i < names@.len() implies #[trigger] missing_images(sw, m0).contains(names@[i]@)
                || missing_images(hw, m0).contains(names@[i]@) by {
            if i < first.len() {
                assert(names@[i] == first[i]);
            }
        }
    }
    names
}

/// Two animated entities that share a spritesheet image get meshes of their
/// own from one texture: the same texture coordinates where their frames
/// agree, and recording buffers for one leaves the other's mesh as it was.
/// `after` is any mesh map that `InitAnimatedSprite::run` may leave.
pub proof fn lemma_shared_image_independent(
    s: Map<u32, Spritesheet>,
    a: Map<u32, AnimatedSprite>,
    m: Map<u32, Mesh>,
    cache: TextureCache,
    after: Map<u32, Mesh>,
    k1: u32,
    k2: u32,
    b: crate::component::MeshBuffers,
)
    requires
        k1 != k2,
        anim_ready(s, a, m, cache, k1),
        anim_ready(s, a, m, cache, k2),
        s[k1].image_name@ == s[k2].image_name@,
        forall|k: u32| #[trigger]
            anim_ready(s, a, m, cache, k) ==> is_quad_of(after[k], a[k].current_rect(), anim_texture(s, cache, k)),
    ensures
        anim_texture(s, cache, k1) == anim_texture(s, cache, k2),
        a[k1].current_rect() == a[k2].current_rect() ==> after[k1].uv@ == after[k2].uv@
            && after[k1].vertices@ == after[k2].vertices@,
        after.insert(k1, crate::render_system::with_buffers(after[k1], b))[k2] == after[k2],
{
    assert(is_quad_of(after[k1], a[k1].current_rect(), anim_texture(s, cache, k1)));
    assert(is_quad_of(after[k2], a[k2].current_rect(), anim_texture(s, cache, k2)));
}

} // verus!
