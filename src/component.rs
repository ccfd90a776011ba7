//! The components: plain data attached to entities.
use vstd::prelude::*;
use crate::geometry::{Ratio, Rect, Vec3};

verus! {

/// Position, rotation and scale of an entity.
#[derive(Clone, Copy, Debug, PartialEq, Eq, Structural)]
pub struct Transform {
    /// Position in world units.
    pub position: Vec3,
    /// Rotation about the Z axis, in thousandths of a radian.
    pub rotation_mrad: i64,
    /// Scale per axis, in thousandths (1000 is unit scale).
    pub scale: Vec3,
}

impl Transform {
    /// A transform at `position`, unrotated, at unit scale.
    pub fn at(position: Vec3) -> (r: Transform)
        ensures
            r.position == position,
            r.rotation_mrad == 0,
            r.scale == (Vec3 { x: 1000, y: 1000, z: 1000 }),
    {
        Transform { position, rotation_mrad: 0, scale: Vec3 { x: 1000, y: 1000, z: 1000 } }
    }
}

/// A static reference to one region of an image.
#[derive(Clone, Debug)]
pub struct Sprite {
    pub image_name: String,
    pub rect: Rect,
}

/// A named image with an ordered list of source rectangles.
#[derive(Clone, Debug)]
pub struct Spritesheet {
    pub image_name: String,
    pub rects: Vec<Rect>,
}

/// Animation state: sequences of frames, the current position in them and
/// the time accumulated towards the next frame.
#[derive(Clone, Debug)]
pub struct AnimatedSprite {
    /// The animation sequences, each an ordered list of frames.
    pub rects: Vec<Vec<Rect>>,
    /// The frame that the mesh's base texture coordinates were derived from.
    pub rect_origin: Rect,
    pub current_anim: usize,
    pub current_frame: usize,
    /// Time that each frame stays on screen, in microseconds.
    pub frame_time: u64,
    /// Time accumulated since the last frame change, in microseconds.
    pub tick: u64,
}

impl AnimatedSprite {
    /// The current sequence and frame exist (and, as for any vector, the
    /// sequence's length fits a `usize`).
    pub open spec fn wf(&self) -> bool {
        &&& self.current_anim < self.rects@.len()
        &&& self.current_frame < self.rects@[self.current_anim as int]@.len()
        &&& self.rects@[self.current_anim as int]@.len() <= usize::MAX
    }

    /// Number of frames of the active sequence.
    pub open spec fn frame_count(&self) -> nat {
        self.rects@[self.current_anim as int]@.len()
    }

    /// The rectangle of the current frame.
    pub open spec fn current_rect(&self) -> Rect {
        self.rects@[self.current_anim as int]@[self.current_frame as int]
    }
}

/// A texture as known to the graphics context: its handle and pixel size.
#[derive(Clone, Copy, Debug, PartialEq, Eq, Structural)]
pub struct Texture {
    pub index: u32,
    pub width: u32,
    pub height: u32,
}

/// The graphics buffers of an uploaded mesh.
#[derive(Clone, Copy, Debug, PartialEq, Eq, Structural)]
pub struct MeshBuffers {
    pub vao: u32,
    pub vertex_vbo: u32,
    pub uv_vbo: u32,
    pub colors_vbo: u32,
    pub ibo: u32,
}

/// A quad: four corners, their texture coordinates and colours, the fan
/// index order, and the buffers once uploaded.
#[derive(Clone, Debug)]
pub struct Mesh {
    /// Corner positions, three coordinates per corner.
    pub vertices: Vec<Ratio>,
    /// Texture coordinates, two per corner.
    pub uv: Vec<Ratio>,
    /// Colour channels, four per corner, 255 being full intensity.
    pub colors: Vec<u8>,
    pub indices: Vec<u32>,
    pub buffers: Option<MeshBuffers>,
}

/// Offset added to a mesh's texture coordinates when drawing.
#[derive(Clone, Copy, Debug, PartialEq, Eq, Structural)]
pub struct UvOffset {
    pub u: Ratio,
    pub v: Ratio,
}

/// Shader, texture and program of an entity, and its animated offset.
#[derive(Clone, Debug)]
pub struct Material {
    pub shader: String,
    pub texture_name: String,
    pub program: Option<u32>,
    pub texture: Texture,
    pub uv_offset: UvOffset,
}

impl Material {
    /// A copy of the material.
    pub fn duplicate(&self) -> (r: Material)
        ensures
            r == *self,
    {
        Material {
            shader: self.shader.clone(),
            texture_name: self.texture_name.clone(),
            program: self.program,
            texture: self.texture,
            uv_offset: self.uv_offset,
        }
    }
}

impl specs::Component for Transform {
    type Storage = specs::VecStorage<Self>;
}

impl specs::Component for Sprite {
    type Storage = specs::VecStorage<Self>;
}

impl specs::Component for Spritesheet {
    type Storage = specs::VecStorage<Self>;
}

impl specs::Component for AnimatedSprite {
    type Storage = specs::VecStorage<Self>;
}

impl specs::Component for Mesh {
    type Storage = specs::VecStorage<Self>;
}

impl specs::Component for Material {
    type Storage = specs::VecStorage<Self>;
}

} // verus!
