//! The systems: each runs once per call over every entity that holds the
//! components it reads.
use vstd::prelude::*;
use crate::animation::{advance, advanced, updated_material, DeltaTime};
use crate::component::{AnimatedSprite, Material, Transform};
use crate::ecs::{
    alive_of, animated_sprites_in, animated_sprites_of, lists, materials_in, materials_of,
    meshes_of, put_animated_sprite, put_material, put_transform, registered, sprites_of,
    spritesheets_of, transforms_in, transforms_of,
};
use crate::input::{apply_input, moved, Keyboard};

verus! {

/// Moves every entity with a `Transform` by the step of the current key.
pub struct KeyboardInput;

/// Advances every animated sprite that has a material.
pub struct UpdateAnimatedSprite;

/// Every transform of `m` moved by the step of `k`.
pub open spec fn all_moved(m: Map<u32, Transform>, k: crate::input::KeycodeEx) -> Map<u32, Transform> {
    Map::new(|id: u32| m.contains_key(id), |id: u32| moved(m[id], k))
}

impl KeyboardInput {
    pub fn run(&mut self, keyboard: &Keyboard, world: &mut specs::World)
        requires
            registered(*old(world)),
        ensures
            registered(*final(world)),
            alive_of(*final(world)) == alive_of(*old(world)),
            transforms_of(*final(world)) == all_moved(transforms_of(*old(world)), keyboard.0),
            sprites_of(*final(world)) == sprites_of(*old(world)),
            spritesheets_of(*final(world)) == spritesheets_of(*old(world)),
            animated_sprites_of(*final(world)) == animated_sprites_of(*old(world)),
            meshes_of(*final(world)) == meshes_of(*old(world)),
            materials_of(*final(world)) == materials_of(*old(world)),
    {
        let ghost w0 = *world;
        let ghost m0 = transforms_of(*world);
        let list = transforms_in(world);
        let mut i: usize = 0;
        while i < list.len()
            invariant
                registered(*world),
                alive_of(*world) == alive_of(w0),
                sprites_of(*world) == sprites_of(w0),
                spritesheets_of(*world) == spritesheets_of(w0),
                animated_sprites_of(*world) == animated_sprites_of(w0),
                meshes_of(*world) == meshes_of(w0),
                materials_of(*world) == materials_of(w0),
                m0 == transforms_of(w0),
                lists(list@, m0),
                forall|j: int| 0 <= j < list@.len() ==> alive_of(w0).contains(#[trigger] list@[j].0),
                0 <= i <= list.len(),
                transforms_of(*world).dom() == m0.dom(),
                forall|k: u32| #[trigger]
                    m0.contains_key(k) ==> transforms_of(*world)[k] == if i == list.len() || k
                        < list@[i as int].0 {
                        moved(m0[k], keyboard.0)
                    } else {
                        m0[k]
                    },
            decreases list.len() - i,
        {
            let (id, t) = list[i];
            let mut t2 = t;
            apply_input(&mut t2, keyboard.0);
            put_transform(world, id, t2);
            i = i + 1;
            proof {
                assert forall|k: u32| #[trigger] m0.contains_key(k) implies transforms_of(*world)[k]
                    == if i == list.len() || k < list@[i as int].0 {
                    moved(m0[k], keyboard.0)
                } else {
                    m0[k]
                } by {
                    if k != id {
                        let j = choose|j: int| 0 <= j < list@.len() && list@[j].0 == k;
                        if j < i - 1 {
                            assert(list@[j].0 < list@[i - 1].0);
                        } else {
                            assert(j >= i);
                            if i < list.len() && j > i {
                                assert(list@[i as int].0 < list@[j].0);
                            }
                        }
                    } else {
                        if i < list.len() {
                            assert(list@[i - 1].0 < list@[i as int].0);
                        }
                    }
                }
                assert(transforms_of(*world).dom() =~= m0.dom());
            }
        }
        proof {
            assert(transforms_of(*world) =~= all_moved(m0, keyboard.0));
        }
    }
}

/// Index of the entry of entity `id` in `list`, if there is one.
pub fn position_of<T>(list: &Vec<(u32, T)>, id: u32) -> (r: Option<usize>)
    ensures
        r is Some ==> r->Some_0 < list@.len() && list@[r->Some_0 as int].0 == id,
        r is None ==> forall|j: int| 0 <= j < list@.len() ==> list@[j].0 != id,
{
    let mut j: usize = 0;
    while j < list.len()
        invariant
            0 <= j <= list@.len(),
            forall|i: int| 0 <= i < j ==> list@[i].0 != id,
        decreases list.len() - j,
    {
        if list[j].0 == id {
            return Some(j);
        }
        j = j + 1;
    }
    None
}

/// The animations after a tick of `dt`: those that are well formed and have a
/// material advance, the others stay as they are.
pub open spec fn ticked_sprites(a: Map<u32, AnimatedSprite>, m: Map<u32, Material>, dt: int) -> Map<
    u32,
    AnimatedSprite,
> {
    Map::new(
        |k: u32| a.contains_key(k),
        |k: u32|
            if m.contains_key(k) && a[k].wf() {
                advanced(a[k], dt)
            } else {
                a[k]
            },
    )
}

/// The materials after a tick of `dt` of the animations `a`.
pub open spec fn ticked_materials(a: Map<u32, AnimatedSprite>, m: Map<u32, Material>, dt: int) -> Map<
    u32,
    Material,
> {
    Map::new(
        |k: u32| m.contains_key(k),
        |k: u32|
            if a.contains_key(k) && a[k].wf() {
                updated_material(m[k], a[k], dt)
            } else {
                m[k]
            },
    )
}

impl UpdateAnimatedSprite {
    pub fn run(&mut self, delta: &DeltaTime, world: &mut specs::World)
        requires
            registered(*old(world)),
        ensures
            registered(*final(world)),
            alive_of(*final(world)) == alive_of(*old(world)),
            animated_sprites_of(*final(world)) == ticked_sprites(
                animated_sprites_of(*old(world)),
                materials_of(*old(world)),
                delta.0 as int,
            ),
            materials_of(*final(world)) == ticked_materials(
                animated_sprites_of(*old(world)),
                materials_of(*old(world)),
                delta.0 as int,
            ),
            transforms_of(*final(world)) == transforms_of(*old(world)),
            sprites_of(*final(world)) == sprites_of(*old(world)),
            spritesheets_of(*final(world)) == spritesheets_of(*old(world)),
            meshes_of(*final(world)) == meshes_of(*old(world)),
    {
        let ghost w0 = *world;
        let ghost a0 = animated_sprites_of(*world);
        let ghost m0 = materials_of(*world);
        let dt = delta.0;
        let mats = materials_in(world);
        let mut anims = animated_sprites_in(world);
        let ghost list0 = anims@;
        while anims.len() > 0
            invariant
                registered(*world),
                alive_of(*world) == alive_of(w0),
                transforms_of(*world) == transforms_of(w0),
                sprites_of(*world) == sprites_of(w0),
                spritesheets_of(*world) == spritesheets_of(w0),
                meshes_of(*world) == meshes_of(w0),
                a0 == animated_sprites_of(w0),
                m0 == materials_of(w0),
                dt == delta.0,
                lists(list0, a0),
                lists(mats@, m0),
                forall|j: int| 0 <= j < list0.len() ==> alive_of(w0).contains(#[trigger] list0[j].0),
                anims@.len() <= list0.len(),
                anims@ == list0.subrange(0, anims@.len() as int),
                animated_sprites_of(*world).dom() == a0.dom(),
                materials_of(*world).dom() == m0.dom(),
                forall|k: u32| #[trigger]
                    a0.contains_key(k) ==> animated_sprites_of(*world)[k] == if anims@.len() == 0
                        || k > list0[anims@.len() - 1].0 {
                        ticked_sprites(a0, m0, dt as int)[k]
                    } else {
                        a0[k]
                    },
                forall|k: u32| #[trigger]
                    m0.contains_key(k) ==> materials_of(*world)[k] == if a0.contains_key(k) && (
                    anims@.len() == 0 || k > list0[anims@.len() - 1].0) {
                        ticked_materials(a0, m0, dt as int)[k]
                    } else {
                        m0[k]
                    },
            decreases anims.len(),
        {
            let ghost n = anims@.len();
            assert(anims@[n - 1] == list0[n - 1]);
            let popped = anims.pop();
            let (id, mut s) = match popped {
                Some(entry) => entry,
                None => {
                    return;
                },
            };
            assert(id == list0[n - 1].0);
            assert(anims@ =~= list0.subrange(0, anims@.len() as int));
            let ghost s0 = s;
            if s.current_anim < s.rects.len() && s.current_frame < s.rects[s.current_anim].len() {
                match position_of(&mats, id) {
                    Some(j) => {
                        let mut m = mats[j].1.duplicate();
                        advance(&mut s, &mut m, dt);
                        put_animated_sprite(world, id, s);
                        put_material(world, id, m);
                    },
                    None => {},
                }
            }
            proof {
                assert forall|k: u32| #[trigger] a0.contains_key(k) implies animated_sprites_of(
                    *world,
                )[k] == if anims@.len() == 0 || k > list0[anims@.len() - 1].0 {
                    ticked_sprites(a0, m0, dt as int)[k]
                } else {
                    a0[k]
                } by {
                    let j = choose|j: int| 0 <= j < list0.len() && list0[j].0 == k;
                    if j < n - 1 {
                        assert(list0[j].0 < list0[n - 1].0);
                        if j < n - 2 {
                            assert(list0[j].0 < list0[n - 2].0);
                        }
                    } else if j > n - 1 {
                        assert(list0[n - 1].0 < list0[j].0);
                    } else if n > 1 {
                        assert(list0[n - 2].0 < list0[n - 1].0);
                    }
                }
                assert forall|k: u32| #[trigger] m0.contains_key(k) implies materials_of(*world)[k]
                    == if a0.contains_key(k) && (anims@.len() == 0 || k > list0[anims@.len()
                    - 1].0) {
                    ticked_materials(a0, m0, dt as int)[k]
                } else {
                    m0[k]
                } by {
                    if a0.contains_key(k) {
                        let j = choose|j: int| 0 <= j < list0.len() && list0[j].0 == k;
                        if j < n - 1 {
                            assert(list0[j].0 < list0[n - 1].0);
                            if j < n - 2 {
                                assert(list0[j].0 < list0[n - 2].0);
                            }
                        } else if j > n - 1 {
                            assert(list0[n - 1].0 < list0[j].0);
                        } else if n > 1 {
                            assert(list0[n - 2].0 < list0[n - 1].0);
                        }
                    }
                }
                assert(animated_sprites_of(*world).dom() =~= a0.dom());
                assert(materials_of(*world).dom() =~= m0.dom());
            }
        }
        proof {
            assert(animated_sprites_of(*world) =~= ticked_sprites(a0, m0, dt as int));
            assert(materials_of(*world) =~= ticked_materials(a0, m0, dt as int));
        }
    }
}

} // verus!
