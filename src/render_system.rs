//! Rendering: which entities need their shader program and buffers set up,
//! recording the handles once made, and the draw list of a frame.
use vstd::prelude::*;
use crate::component::{Material, Mesh, MeshBuffers, Texture, Transform, UvOffset};
use crate::ecs::{
    alive_of, animated_sprites_of, lemma_listed_before_step, listed_before, lists, materials_in,
    materials_of, meshes_in, meshes_of, put_material, put_mesh, registered, sprites_of,
    spritesheets_of, transforms_in, transforms_of,
};
use crate::paths::{shader_location, shader_location_spec};
use crate::system::position_of;

verus! {

/// Sets up the shader program and buffers of entities whose mesh and
/// material are not yet on the graphics side.
pub struct InitRender;

/// Plans the draw calls of a frame.
pub struct Render;

/// What the graphics side needs to set up one entity: where the two shader
/// sources are, and the image to load when the material has no texture yet.
pub struct RenderSetup {
    pub vertex_location: String,
    pub fragment_location: String,
    pub texture_location: Option<String>,
}

/// Everything one draw call binds and pushes.
#[derive(Clone, Copy, Debug, PartialEq, Eq, Structural)]
pub struct DrawCall {
    pub transform: Transform,
    pub program: u32,
    pub texture: u32,
    pub buffers: MeshBuffers,
    pub uv_offset: UvOffset,
}

/// Entity `k` has a mesh and a material, and one of them lacks its handles.
pub open spec fn needs_setup(m: Map<u32, Mesh>, t: Map<u32, Material>, k: u32) -> bool {
    &&& m.contains_key(k)
    &&& t.contains_key(k)
    &&& (m[k].buffers is None || t[k].program is None)
}

/// `s` asks for the shaders of `mat`, and for its image when it has no texture.
pub open spec fn setup_for(s: RenderSetup, mat: Material) -> bool {
    &&& s.vertex_location@ == shader_location_spec(mat.shader@, "vs"@)
    &&& s.fragment_location@ == shader_location_spec(mat.shader@, "fs"@)
    &&& (s.texture_location is Some <==> mat.texture.width == 0)
    &&& (s.texture_location is Some ==> s.texture_location->Some_0@ == mat.texture_name@)
}

/// Entity `k` can be drawn: it has a transform, a mesh with buffers and a
/// material with a program.
pub open spec fn drawable(
    tr: Map<u32, Transform>,
    m: Map<u32, Mesh>,
    t: Map<u32, Material>,
    k: u32,
) -> bool {
    &&& tr.contains_key(k)
    &&& m.contains_key(k)
    &&& t.contains_key(k)
    &&& m[k].buffers is Some
    &&& t[k].program is Some
}

/// The draw call of a drawable entity.
pub open spec fn draw_of(tr: Transform, m: Mesh, t: Material) -> DrawCall {
    DrawCall {
        transform: tr,
        program: t.program->Some_0,
        texture: t.texture.index,
        buffers: m.buffers->Some_0,
        uv_offset: t.uv_offset,
    }
}

/// The draw calls of a frame, by entity.
pub open spec fn draws(tr: Map<u32, Transform>, m: Map<u32, Mesh>, t: Map<u32, Material>) -> Map<
    u32,
    DrawCall,
> {
    Map::new(|k: u32| drawable(tr, m, t, k), |k: u32| draw_of(tr[k], m[k], t[k]))
}

/// The mesh once its buffers are made.
pub open spec fn with_buffers(m: Mesh, b: MeshBuffers) -> Mesh {
    Mesh { buffers: Some(b), ..m }
}

/// The material once its program is made, and its texture loaded if it had none.
pub open spec fn with_program(t: Material, program: u32, texture: Option<Texture>) -> Material {
    Material {
        program: Some(program),
        texture: if texture is Some {
            texture->Some_0
        } else {
            t.texture
        },
        ..t
    }
}

impl InitRender {
    /// What each entity that needs setting up needs, by increasing index.
    pub fn requests(&self, world: &specs::World) -> (r: Vec<(u32, RenderSetup)>)
        requires
            registered(*world),
        ensures
            forall|j: int|
                #![trigger r@[j]]
                0 <= j < r@.len() ==> needs_setup(meshes_of(*world), materials_of(*world), r@[j].0)
                    && setup_for(r@[j].1, materials_of(*world)[r@[j].0]),
            forall|k: u32| #[trigger]
                needs_setup(meshes_of(*world), materials_of(*world), k) ==> exists|j: int|
                    0 <= j < r@.len() && r@[j].0 == k,
            forall|a: int, b: int| 0 <= a < b < r@.len() ==> r@[a].0 < r@[b].0,
    {
        let ghost m0 = meshes_of(*world);
        let ghost t0 = materials_of(*world);
        let meshes = meshes_in(world);
        let materials = materials_in(world);
        let mut r: Vec<(u32, RenderSetup)> = Vec::new();
        let mut i: usize = 0;
        while i < meshes.len()
            invariant
                m0 == meshes_of(*world),
                t0 == materials_of(*world),
                lists(meshes@, m0),
                lists(materials@, t0),
                0 <= i <= meshes@.len(),
                forall|j: int|
                    #![trigger r@[j]]
                    0 <= j < r@.len() ==> needs_setup(m0, t0, r@[j].0) && setup_for(r@[j].1, t0[r@[j].0])
                        && listed_before(meshes@, i as int, r@[j].0),
                forall|k: u32| #[trigger]
                    needs_setup(m0, t0, k) && listed_before(meshes@, i as int, k) ==> exists|j: int|
                        0 <= j < r@.len() && r@[j].0 == k,
                forall|a: int, b: int| 0 <= a < b < r@.len() ==> r@[a].0 < r@[b].0,
            decreases meshes.len() - i,
        {
            let id = meshes[i].0;
            let ghost rb = r@;
            let material_at = position_of(&materials, id);
            if material_at.is_some() {
                let tj = material_at.unwrap();
                let mat = &materials[tj].1;
                if meshes[i].1.buffers.is_none() || mat.program.is_none() {
                    let vertex_location = shader_location(mat.shader.as_str(), "vs");
                    let fragment_location = shader_location(mat.shader.as_str(), "fs");
                    let texture_location = if mat.texture.width == 0 {
                        Some(mat.texture_name.clone())
                    } else {
                        None
                    };
                    r.push((id, RenderSetup { vertex_location, fragment_location, texture_location }));
                }
            }
            proof {
                let ghost e = meshes@[i as int];
                assert(m0.contains_key(e.0) && m0[e.0] == e.1);
                assert(material_at is Some <==> t0.contains_key(id)) by {
                    if t0.contains_key(id) {
                        let j = choose|j: int| 0 <= j < materials@.len() && materials@[j].0 == id;
                        assert(materials@[j].0 == id);
                    }
                }
                if material_at is Some {
                    let g = materials@[material_at->Some_0 as int];
                    assert(t0.contains_key(g.0) && t0[g.0] == g.1);
                }
                assert forall|k: u32| m0.contains_key(k) implies (listed_before(meshes@, i + 1, k) <==> (
                listed_before(meshes@, i as int, k) || k == id)) by {
                    lemma_listed_before_step(meshes@, m0, i as int, k);
                }
                if i + 1 < meshes@.len() {
                    assert(id < meshes@[i + 1].0);
                }
                assert forall|j: int|
                    #![trigger r@[j]]
                    0 <= j < r@.len() implies needs_setup(m0, t0, r@[j].0) && setup_for(
                    r@[j].1,
                    t0[r@[j].0],
                ) && listed_before(meshes@, i + 1, r@[j].0) by {
                    if j < rb.len() {
                        assert(r@[j] == rb[j]);
                        assert(needs_setup(m0, t0, rb[j].0));
                    }
                }
                assert forall|k: u32| #[trigger]
                    needs_setup(m0, t0, k) && listed_before(meshes@, i + 1, k) implies exists|j: int|
                    0 <= j < r@.len() && r@[j].0 == k by {
                    if k != id {
                        let j = choose|j: int| 0 <= j < rb.len() && rb[j].0 == k;
                        assert(r@[j] == rb[j]);
                    } else {
                        assert(r@[r@.len() - 1].0 == k);
                    }
                }
                assert forall|a: int, b: int| 0 <= a < b < r@.len() implies r@[a].0 < r@[b].0 by {
                    assert(r@[a] == rb[a]);
                    if b < rb.len() {
                        assert(r@[b] == rb[b]);
                    } else {
                        assert(needs_setup(m0, t0, rb[a].0));
                    }
                }
            }
            i = i + 1;
        }
        r
    }

    /// Records the handles made for entity `id`: its program, its buffers and,
    /// when one was loaded, its texture. Only an entity that needs setting up
    /// is changed; the result says whether it was.
    pub fn complete(
        &mut self,
        world: &mut specs::World,
        id: u32,
        program: u32,
        buffers: MeshBuffers,
        texture: Option<Texture>,
    ) -> (done: bool)
        requires
            registered(*old(world)),
        ensures
            registered(*final(world)),
            alive_of(*final(world)) == alive_of(*old(world)),
            done == needs_setup(meshes_of(*old(world)), materials_of(*old(world)), id),
            done ==> meshes_of(*final(world)) == meshes_of(*old(world)).insert(
                id,
                with_buffers(meshes_of(*old(world))[id], buffers),
            ),
            done ==> materials_of(*final(world)) == materials_of(*old(world)).insert(
                id,
                with_program(materials_of(*old(world))[id], program, texture),
            ),
            !done ==> meshes_of(*final(world)) == meshes_of(*old(world)),
            !done ==> materials_of(*final(world)) == materials_of(*old(world)),
            transforms_of(*final(world)) == transforms_of(*old(world)),
            sprites_of(*final(world)) == sprites_of(*old(world)),
            spritesheets_of(*final(world)) == spritesheets_of(*old(world)),
            animated_sprites_of(*final(world)) == animated_sprites_of(*old(world)),
    {
        let ghost m0 = meshes_of(*world);
        let ghost t0 = materials_of(*world);
        let mut meshes = meshes_in(world);
        let mut materials = materials_in(world);
        let mesh_at = position_of(&meshes, id);
        let material_at = position_of(&materials, id);
        proof {
            assert(mesh_at is Some <==> m0.contains_key(id)) by {
                if m0.contains_key(id) {
                    let j = choose|j: int| 0 <= j < meshes@.len() && meshes@[j].0 == id;
                    assert(meshes@[j].0 == id);
                }
            }
            assert(material_at is Some <==> t0.contains_key(id)) by {
                if t0.contains_key(id) {
                    let j = choose|j: int| 0 <= j < materials@.len() && materials@[j].0 == id;
                    assert(materials@[j].0 == id);
                }
            }
        }
        match (mesh_at, material_at) {
            (Some(mj), Some(tj)) => {
                proof {
                    let g = meshes@[mj as int];
                    assert(m0.contains_key(g.0) && m0[g.0] == g.1);
                    let h = materials@[tj as int];
                    assert(t0.contains_key(h.0) && t0[h.0] == h.1);
                }
                if meshes[mj].1.buffers.is_some() && materials[tj].1.program.is_some() {
                    return false;
                }
                let (_, mut mesh) = meshes.remove(mj);
                let (_, mut material) = materials.remove(tj);
                mesh.buffers = Some(buffers);
                material.program = Some(program);
                match texture {
                    Some(t) => {
                        material.texture = t;
                    },
                    None => {},
                }
                put_mesh(world, id, mesh);
                put_material(world, id, material);
                true
            },
            _ => false,
        }
    }
}

impl Render {
    /// The draw calls of every drawable entity, by increasing index. Entities
    /// whose handles are not set are left out rather than drawn.
    pub fn run(&mut self, world: &specs::World) -> (r: Vec<(u32, DrawCall)>)
        requires
            registered(*world),
        ensures
            lists(r@, draws(transforms_of(*world), meshes_of(*world), materials_of(*world))),
    {
        let ghost tr0 = transforms_of(*world);
        let ghost d = draws(transforms_of(*world), meshes_of(*world), materials_of(*world));
        let transforms = transforms_in(world);
        let meshes = meshes_in(world);
        let materials = materials_in(world);
        let mut r: Vec<(u32, DrawCall)> = Vec::new();
        let mut i: usize = 0;
        while i < transforms.len()
            invariant
                tr0 == transforms_of(*world),
                d == draws(transforms_of(*world), meshes_of(*world), materials_of(*world)),
                lists(transforms@, tr0),
                lists(meshes@, meshes_of(*world)),
                lists(materials@, materials_of(*world)),
                0 <= i <= transforms@.len(),
                forall|j: int|
                    #![trigger r@[j]]
                    0 <= j < r@.len() ==> d.contains_key(r@[j].0) && d[r@[j].0] == r@[j].1
                        && listed_before(transforms@, i as int, r@[j].0),
                forall|k: u32| #[trigger]
                    d.contains_key(k) && listed_before(transforms@, i as int, k) ==> exists|j: int|
                        0 <= j < r@.len() && r@[j].0 == k,
                forall|a: int, b: int| 0 <= a < b < r@.len() ==> r@[a].0 < r@[b].0,
            decreases transforms.len() - i,
        {
            let id = transforms[i].0;
            let ghost rb = r@;
            let mesh_at = position_of(&meshes, id);
            let material_at = position_of(&materials, id);
            if mesh_at.is_some() && material_at.is_some() {
                let mj = mesh_at.unwrap();
                let tj = material_at.unwrap();
                match (meshes[mj].1.buffers, materials[tj].1.program) {
                    (Some(buffers), Some(program)) => {
                        let call = DrawCall {
                            transform: transforms[i].1,
                            program,
                            texture: materials[tj].1.texture.index,
                            buffers,
                            uv_offset: materials[tj].1.uv_offset,
                        };
                        r.push((id, call));
                    },
                    _ => {},
                }
            }
            proof {
                let ghost e = transforms@[i as int];
                assert(tr0.contains_key(e.0) && tr0[e.0] == e.1);
                assert(mesh_at is Some <==> meshes_of(*world).contains_key(id)) by {
                    if meshes_of(*world).contains_key(id) {
                        let j = choose|j: int| 0 <= j < meshes@.len() && meshes@[j].0 == id;
                        assert(meshes@[j].0 == id);
                    }
                }
                assert(material_at is Some <==> materials_of(*world).contains_key(id)) by {
                    if materials_of(*world).contains_key(id) {
                        let j = choose|j: int| 0 <= j < materials@.len() && materials@[j].0 == id;
                        assert(materials@[j].0 == id);
                    }
                }
                if mesh_at is Some {
                    let g = meshes@[mesh_at->Some_0 as int];
                    assert(meshes_of(*world).contains_key(g.0) && meshes_of(*world)[g.0] == g.1);
                }
                if material_at is Some {
                    let g = materials@[material_at->Some_0 as int];
                    assert(materials_of(*world).contains_key(g.0) && materials_of(*world)[g.0] == g.1);
                }
                assert forall|k: u32| tr0.contains_key(k) implies (listed_before(
                    transforms@,
                    i + 1,
                    k,
                ) <==> (listed_before(transforms@, i as int, k) || k == id)) by {
                    lemma_listed_before_step(transforms@, tr0, i as int, k);
                }
                if i + 1 < transforms@.len() {
                    assert(id < transforms@[i + 1].0);
                }
                assert forall|j: int|
                    #![trigger r@[j]]
                    0 <= j < r@.len() implies d.contains_key(r@[j].0) && d[r@[j].0] == r@[j].1
                    && listed_before(transforms@, i + 1, r@[j].0) by {
                    if j < rb.len() {
                        assert(r@[j] == rb[j]);
                        assert(d.contains_key(rb[j].0));
                    }
                }
                assert forall|k: u32| #[trigger]
                    d.contains_key(k) && listed_before(transforms@, i + 1, k) implies exists|j: int|
                    0 <= j < r@.len() && r@[j].0 == k by {
                    if k != id {
                        let j = choose|j: int| 0 <= j < rb.len() && rb[j].0 == k;
                        assert(r@[j] == rb[j]);
                    } else {
                        assert(r@[r@.len() - 1].0 == k);
                    }
                }
                assert forall|a: int, b: int| 0 <= a < b < r@.len() implies r@[a].0 < r@[b].0 by {
                    assert(r@[a] == rb[a]);
                    if b < rb.len() {
                        assert(r@[b] == rb[b]);
                    } else {
                        assert(d.contains_key(rb[a].0));
                    }
                }
            }
            i = i + 1;
        }
        r
    }
}

} // verus!
