//! The entity store: the outside ECS world, and the operations on it that
//! the systems use. Each kind of component is seen as a map from entity index
//! to component.
use vstd::prelude::*;
use specs::{Join, WorldExt};
use crate::component::{AnimatedSprite, Material, Mesh, Sprite, Spritesheet, Transform};

verus! {

/// The storage that every component kind of this library uses.
#[verifier::external_type_specification]
#[verifier::external_body]
#[verifier::reject_recursive_types(T)]
pub struct ExVecStorage<T>(specs::VecStorage<T>);

/// The world of `specs`, holding entities and component storages; opaque here.
#[verifier::external_type_specification]
#[verifier::external_body]
pub struct ExWorld(specs::World);

/// Whether the storages of all six component kinds are registered in `w`.
pub uninterp spec fn registered(w: specs::World) -> bool;

/// Indices of the entities of `w`, as the join over `w.entities()` yields
/// them: those living, and those created atomically and not yet merged.
pub uninterp spec fn alive_of(w: specs::World) -> Set<u32>;

/// The `Transform` components of the entities of `w`, by entity index: what
/// joining `w.entities()` with the `Transform` storage yields.
pub uninterp spec fn transforms_of(w: specs::World) -> Map<u32, Transform>;

/// The `Sprite` components of the entities of `w`, by entity index: what
/// joining `w.entities()` with the `Sprite` storage yields.
pub uninterp spec fn sprites_of(w: specs::World) -> Map<u32, Sprite>;

/// The `Spritesheet` components of the entities of `w`, by entity index: what
/// joining `w.entities()` with the `Spritesheet` storage yields.
pub uninterp spec fn spritesheets_of(w: specs::World) -> Map<u32, Spritesheet>;

/// The `AnimatedSprite` components of the entities of `w`, by entity index: what
/// joining `w.entities()` with the `AnimatedSprite` storage yields.
pub uninterp spec fn animated_sprites_of(w: specs::World) -> Map<u32, AnimatedSprite>;

/// The `Mesh` components of the entities of `w`, by entity index: what
/// joining `w.entities()` with the `Mesh` storage yields.
pub uninterp spec fn meshes_of(w: specs::World) -> Map<u32, Mesh>;

/// The `Material` components of the entities of `w`, by entity index: what
/// joining `w.entities()` with the `Material` storage yields.
pub uninterp spec fn materials_of(w: specs::World) -> Map<u32, Material>;

/// `r` lists the entries of `m` exactly once each, by increasing index.
pub open spec fn lists<T>(r: Seq<(u32, T)>, m: Map<u32, T>) -> bool {
    &&& forall|i: int| #![trigger r[i]] 0 <= i < r.len() ==> m.contains_key(r[i].0) && m[r[i].0] == r[i].1
    &&& forall|k: u32| #[trigger] m.contains_key(k) ==> exists|i: int| 0 <= i < r.len() && r[i].0 == k
    &&& forall|i: int, j: int| 0 <= i < j < r.len() ==> r[i].0 < r[j].0
}

/// In a listing by increasing index, the entry of `k` comes before position `i`.
pub open spec fn listed_before<T>(r: Seq<(u32, T)>, i: int, k: u32) -> bool {
    i >= r.len() || k < r[i].0
}

/// Moving past position `i` of a listing adds exactly the entry at `i` to
/// those that come before.
pub proof fn lemma_listed_before_step<T>(r: Seq<(u32, T)>, m: Map<u32, T>, i: int, k: u32)
    requires
        lists(r, m),
        0 <= i < r.len(),
        m.contains_key(k),
    ensures
        listed_before(r, i + 1, k) <==> (listed_before(r, i, k) || k == r[i].0),
{
    let j = choose|j: int| 0 <= j < r.len() && r[j].0 == k;
    if j < i {
        assert(r[j].0 < r[i].0);
        if i + 1 < r.len() {
            assert(r[i].0 < r[i + 1].0);
        }
    } else if j > i {
        assert(r[i].0 < r[j].0);
        if j > i + 1 {
            assert(r[i + 1].0 < r[j].0);
        }
    } else if i + 1 < r.len() {
        assert(r[i].0 < r[i + 1].0);
    }
}

/// Relies on `specs::WorldExt::new` (called as `World::new`): a world with its
/// entity list and no entities or component storages.
#[verifier::external_body]
fn empty_world() -> (r: specs::World)
    ensures
        alive_of(r) =~= Set::empty(),
        transforms_of(r) =~= Map::empty(),
        sprites_of(r) =~= Map::empty(),
        spritesheets_of(r) =~= Map::empty(),
        animated_sprites_of(r) =~= Map::empty(),
        meshes_of(r) =~= Map::empty(),
        materials_of(r) =~= Map::empty(),
{
    specs::World::new()
}

/// Relies on `specs::WorldExt::register`, which adds a storage for a kind of
/// component unless there is one, and leaves entities and components as they are.
#[verifier::external_body]
fn register_components(w: &mut specs::World)
    ensures
        registered(*final(w)),
        alive_of(*final(w)) == alive_of(*old(w)),
        transforms_of(*final(w)) == transforms_of(*old(w)),
        sprites_of(*final(w)) == sprites_of(*old(w)),
        spritesheets_of(*final(w)) == spritesheets_of(*old(w)),
        animated_sprites_of(*final(w)) == animated_sprites_of(*old(w)),
        meshes_of(*final(w)) == meshes_of(*old(w)),
        materials_of(*final(w)) == materials_of(*old(w)),
{
    w.register::<Transform>();
    w.register::<Sprite>();
    w.register::<Spritesheet>();
    w.register::<AnimatedSprite>();
    w.register::<Mesh>();
    w.register::<Material>();
}

/// A world with the storages of all component kinds and no entities.
pub fn new_world() -> (r: specs::World)
    ensures
        registered(r),
        alive_of(r) =~= Set::empty(),
        transforms_of(r) =~= Map::empty(),
        sprites_of(r) =~= Map::empty(),
        spritesheets_of(r) =~= Map::empty(),
        animated_sprites_of(r) =~= Map::empty(),
        meshes_of(r) =~= Map::empty(),
        materials_of(r) =~= Map::empty(),
{
    let mut w = empty_world();
    register_components(&mut w);
    w
}

/// Relies on joining `w.entities()` with the `Transform` storage (`specs::Join`):
/// it yields each entity that has the component once, in increasing index
/// order, as it walks the two bit sets.
#[verifier::external_body]
pub(crate) fn transforms_in(w: &specs::World) -> (r: Vec<(u32, Transform)>)
    requires
        registered(*w),
    ensures
        lists(r@, transforms_of(*w)),
        forall|i: int| 0 <= i < r@.len() ==> alive_of(*w).contains(#[trigger] r@[i].0),
{
    let storage = w.read_storage::<Transform>();
    (&w.entities(), &storage).join().map(|(e, c)| (e.id(), *c)).collect()
}

/// Relies on joining `w.entities()` with the `Sprite` storage (`specs::Join`):
/// it yields each entity that has the component once, in increasing index
/// order, as it walks the two bit sets.
#[verifier::external_body]
pub(crate) fn sprites_in(w: &specs::World) -> (r: Vec<(u32, Sprite)>)
    requires
        registered(*w),
    ensures
        lists(r@, sprites_of(*w)),
        forall|i: int| 0 <= i < r@.len() ==> alive_of(*w).contains(#[trigger] r@[i].0),
{
    let storage = w.read_storage::<Sprite>();
    (&w.entities(), &storage).join().map(|(e, c)| (e.id(), c.clone())).collect()
}

/// Relies on joining `w.entities()` with the `Spritesheet` storage (`specs::Join`):
/// it yields each entity that has the component once, in increasing index
/// order, as it walks the two bit sets.
#[verifier::external_body]
pub(crate) fn spritesheets_in(w: &specs::World) -> (r: Vec<(u32, Spritesheet)>)
    requires
        registered(*w),
    ensures
        lists(r@, spritesheets_of(*w)),
        forall|i: int| 0 <= i < r@.len() ==> alive_of(*w).contains(#[trigger] r@[i].0),
{
    let storage = w.read_storage::<Spritesheet>();
    (&w.entities(), &storage).join().map(|(e, c)| (e.id(), c.clone())).collect()
}

/// Relies on joining `w.entities()` with the `AnimatedSprite` storage (`specs::Join`):
/// it yields each entity that has the component once, in increasing index
/// order, as it walks the two bit sets.
#[verifier::external_body]
pub(crate) fn animated_sprites_in(w: &specs::World) -> (r: Vec<(u32, AnimatedSprite)>)
    requires
        registered(*w),
    ensures
        lists(r@, animated_sprites_of(*w)),
        forall|i: int| 0 <= i < r@.len() ==> alive_of(*w).contains(#[trigger] r@[i].0),
{
    let storage = w.read_storage::<AnimatedSprite>();
    (&w.entities(), &storage).join().map(|(e, c)| (e.id(), c.clone())).collect()
}

/// Relies on joining `w.entities()` with the `Mesh` storage (`specs::Join`):
/// it yields each entity that has the component once, in increasing index
/// order, as it walks the two bit sets.
#[verifier::external_body]
pub(crate) fn meshes_in(w: &specs::World) -> (r: Vec<(u32, Mesh)>)
    requires
        registered(*w),
    ensures
        lists(r@, meshes_of(*w)),
        forall|i: int| 0 <= i < r@.len() ==> alive_of(*w).contains(#[trigger] r@[i].0),
{
    let storage = w.read_storage::<Mesh>();
    (&w.entities(), &storage).join().map(|(e, c)| (e.id(), c.clone())).collect()
}

/// Relies on joining `w.entities()` with the `Material` storage (`specs::Join`):
/// it yields each entity that has the component once, in increasing index
/// order, as it walks the two bit sets.
#[verifier::external_body]
pub(crate) fn materials_in(w: &specs::World) -> (r: Vec<(u32, Material)>)
    requires
        registered(*w),
    ensures
        lists(r@, materials_of(*w)),
        forall|i: int| 0 <= i < r@.len() ==> alive_of(*w).contains(#[trigger] r@[i].0),
{
    let storage = w.read_storage::<Material>();
    (&w.entities(), &storage).join().map(|(e, c)| (e.id(), c.clone())).collect()
}

/// Relies on `specs::Entities::entity`, which gives the entity of index `id`
/// in its current generation, and `specs::Storage::insert` on the `Transform`
/// storage, which sets that entity's component, replacing any earlier one.
#[verifier::external_body]
pub(crate) fn put_transform(w: &mut specs::World, id: u32, c: Transform)
    requires
        registered(*old(w)),
        alive_of(*old(w)).contains(id),
    ensures
        registered(*final(w)),
        alive_of(*final(w)) == alive_of(*old(w)),
        transforms_of(*final(w)) == transforms_of(*old(w)).insert(id, c),
        sprites_of(*final(w)) == sprites_of(*old(w)),
        spritesheets_of(*final(w)) == spritesheets_of(*old(w)),
        animated_sprites_of(*final(w)) == animated_sprites_of(*old(w)),
        meshes_of(*final(w)) == meshes_of(*old(w)),
        materials_of(*final(w)) == materials_of(*old(w)),
{
    let e = w.entities().entity(id);
    let _ = w.write_storage::<Transform>().insert(e, c);
}

/// Relies on `specs::Entities::entity`, which gives the entity of index `id`
/// in its current generation, and `specs::Storage::insert` on the `AnimatedSprite`
/// storage, which sets that entity's component, replacing any earlier one.
#[verifier::external_body]
pub(crate) fn put_animated_sprite(w: &mut specs::World, id: u32, c: AnimatedSprite)
    requires
        registered(*old(w)),
        alive_of(*old(w)).contains(id),
    ensures
        registered(*final(w)),
        alive_of(*final(w)) == alive_of(*old(w)),
        animated_sprites_of(*final(w)) == animated_sprites_of(*old(w)).insert(id, c),
        transforms_of(*final(w)) == transforms_of(*old(w)),
        sprites_of(*final(w)) == sprites_of(*old(w)),
        spritesheets_of(*final(w)) == spritesheets_of(*old(w)),
        meshes_of(*final(w)) == meshes_of(*old(w)),
        materials_of(*final(w)) == materials_of(*old(w)),
{
    let e = w.entities().entity(id);
    let _ = w.write_storage::<AnimatedSprite>().insert(e, c);
}

/// Relies on `specs::Entities::entity`, which gives the entity of index `id`
/// in its current generation, and `specs::Storage::insert` on the `Mesh`
/// storage, which sets that entity's component, replacing any earlier one.
#[verifier::external_body]
pub(crate) fn put_mesh(w: &mut specs::World, id: u32, c: Mesh)
    requires
        registered(*old(w)),
        alive_of(*old(w)).contains(id),
    ensures
        registered(*final(w)),
        alive_of(*final(w)) == alive_of(*old(w)),
        meshes_of(*final(w)) == meshes_of(*old(w)).insert(id, c),
        transforms_of(*final(w)) == transforms_of(*old(w)),
        sprites_of(*final(w)) == sprites_of(*old(w)),
        spritesheets_of(*final(w)) == spritesheets_of(*old(w)),
        animated_sprites_of(*final(w)) == animated_sprites_of(*old(w)),
        materials_of(*final(w)) == materials_of(*old(w)),
{
    let e = w.entities().entity(id);
    let _ = w.write_storage::<Mesh>().insert(e, c);
}

/// Relies on `specs::Entities::entity`, which gives the entity of index `id`
/// in its current generation, and `specs::Storage::insert` on the `Material`
/// storage, which sets that entity's component, replacing any earlier one.
#[verifier::external_body]
pub(crate) fn put_material(w: &mut specs::World, id: u32, c: Material)
    requires
        registered(*old(w)),
        alive_of(*old(w)).contains(id),
    ensures
        registered(*final(w)),
        alive_of(*final(w)) == alive_of(*old(w)),
        materials_of(*final(w)) == materials_of(*old(w)).insert(id, c),
        transforms_of(*final(w)) == transforms_of(*old(w)),
        sprites_of(*final(w)) == sprites_of(*old(w)),
        spritesheets_of(*final(w)) == spritesheets_of(*old(w)),
        animated_sprites_of(*final(w)) == animated_sprites_of(*old(w)),
        meshes_of(*final(w)) == meshes_of(*old(w)),
{
    let e = w.entities().entity(id);
    let _ = w.write_storage::<Material>().insert(e, c);
}

} // verus!
