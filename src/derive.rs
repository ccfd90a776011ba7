//! Deriving a renderable quad and its material from sprite declarations.
use vstd::prelude::*;
use crate::component::{AnimatedSprite, Material, Mesh, Sprite, Spritesheet, Texture, UvOffset};
use crate::geometry::{Ratio, Rect};

verus! {

/// Why a mesh could not be derived for an entity.
#[derive(Clone, Copy, Debug, PartialEq, Eq, Structural)]
pub enum DeriveError {
    /// The entity's image was not loaded.
    MissingImage,
    /// The loaded image has no pixels in one direction.
    EmptyTexture,
    /// The source rectangle reaches outside the image.
    RectOutOfBounds,
    /// The animation's current sequence or frame does not exist.
    NoSuchFrame,
}

/// Shader of static sprites.
pub open spec fn sprite_shader() -> Seq<char> {
    "textured"@
}

/// Shader of animated sprites, which adds the material's offset.
pub open spec fn animated_shader() -> Seq<char> {
    "offset_textured"@
}

/// Corners of a quad of `w` by `h` centred on the origin: bottom left,
/// bottom right, top right, top left, three coordinates each.
pub open spec fn quad_vertices(w: int, h: int) -> Seq<Ratio> {
    seq![
        Ratio { num: (0 - w) as i64, den: 2 }, Ratio { num: (0 - h) as i64, den: 2 }, Ratio { num: 0, den: 1 },
        Ratio { num: w as i64, den: 2 }, Ratio { num: (0 - h) as i64, den: 2 }, Ratio { num: 0, den: 1 },
        Ratio { num: w as i64, den: 2 }, Ratio { num: h as i64, den: 2 }, Ratio { num: 0, den: 1 },
        Ratio { num: (0 - w) as i64, den: 2 }, Ratio { num: h as i64, den: 2 }, Ratio { num: 0, den: 1 },
    ]
}

/// Texture coordinates of `rect` normalised by the texture's size, in the
/// corner order of `quad_vertices`.
pub open spec fn quad_uv(rect: Rect, tex: Texture) -> Seq<Ratio> {
    let wd = tex.width as i64;
    let ht = tex.height as i64;
    let u0 = Ratio { num: rect.x as i64, den: wd };
    let u1 = Ratio { num: (rect.x + rect.w) as i64, den: wd };
    let v0 = Ratio { num: rect.y as i64, den: ht };
    let v1 = Ratio { num: (rect.y + rect.h) as i64, den: ht };
    seq![u0, v1, u1, v1, u1, v0, u0, v0]
}

/// Opaque white at every corner.
pub open spec fn white_colors() -> Seq<u8> {
    Seq::new(16, |i: int| 255u8)
}

/// The index order of the quad, drawn as a triangle fan.
pub open spec fn fan_indices() -> Seq<u32> {
    seq![0u32, 1, 2, 3]
}

/// `m` is the quad of `rect` on `tex`, not yet uploaded.
pub open spec fn is_quad_of(m: Mesh, rect: Rect, tex: Texture) -> bool {
    &&& m.vertices@ == quad_vertices(rect.w as int, rect.h as int)
    &&& m.uv@ == quad_uv(rect, tex)
    &&& m.colors@ == white_colors()
    &&& m.indices@ == fan_indices()
    &&& m.buffers is None
}

/// `m` is a fresh material with the given shader for the image `name`
/// loaded as `tex`: no program yet, zero offset.
pub open spec fn is_fresh_material(m: Material, shader: Seq<char>, name: Seq<char>, tex: Texture) -> bool {
    &&& m.shader@ == shader
    &&& m.texture_name@ == name
    &&& m.program is None
    &&& m.texture == tex
    &&& m.uv_offset == (UvOffset {
        u: Ratio { num: 0, den: tex.width as i64 },
        v: Ratio { num: 0, den: tex.height as i64 },
    })
}

/// The error, if any, that keeps `rect` from being derived against `tex`.
pub open spec fn rect_error(rect: Rect, tex: Texture) -> Option<DeriveError> {
    if tex.width == 0 || tex.height == 0 {
        Some(DeriveError::EmptyTexture)
    } else if !rect.fits_in(tex.width as int, tex.height as int) {
        Some(DeriveError::RectOutOfBounds)
    } else {
        None
    }
}

/// Builds the quad for `rect` on `tex`.
pub fn quad_mesh(rect: Rect, tex: &Texture) -> (r: Mesh)
    ensures
        is_quad_of(r, rect, *tex),
{
    let w = rect.w as i64;
    let h = rect.h as i64;
    let left = Ratio::new(0 - w, 2);
    let right = Ratio::new(w, 2);
    let bottom = Ratio::new(0 - h, 2);
    let top = Ratio::new(h, 2);
    let z = Ratio::new(0, 1);
    let vertices = vec![left, bottom, z, right, bottom, z, right, top, z, left, top, z];
    let wd = tex.width as i64;
    let ht = tex.height as i64;
    let u0 = Ratio::new(rect.x as i64, wd);
    let u1 = Ratio::new(rect.x as i64 + rect.w as i64, wd);
    let v0 = Ratio::new(rect.y as i64, ht);
    let v1 = Ratio::new(rect.y as i64 + rect.h as i64, ht);
    let uv = vec![u0, v1, u1, v1, u1, v0, u0, v0];
    let colors: Vec<u8> = vec![255u8; 16];
    let indices = vec![0u32, 1, 2, 3];
    proof {
        assert(vertices@ =~= quad_vertices(rect.w as int, rect.h as int));
        assert(uv@ =~= quad_uv(rect, *tex));
        assert(colors@ =~= white_colors());
        assert(indices@ =~= fan_indices());
    }
    Mesh { vertices, uv, colors, indices, buffers: None }
}

/// Checks `rect` against `tex`.
pub fn check_rect(rect: Rect, tex: &Texture) -> (r: Option<DeriveError>)
    ensures
        r == rect_error(rect, *tex),
{
    if tex.width == 0 || tex.height == 0 {
        Some(DeriveError::EmptyTexture)
    } else if rect.x as u64 + rect.w as u64 > tex.width as u64 || rect.y as u64 + rect.h as u64
        > tex.height as u64 {
        Some(DeriveError::RectOutOfBounds)
    } else {
        None
    }
}

/// A material for the image `name` loaded as `tex`, drawn with `shader`.
pub fn fresh_material(shader: &str, name: &String, tex: &Texture) -> (r: Material)
    ensures
        is_fresh_material(r, shader@, name@, *tex),
{
    Material {
        shader: shader.to_owned(),
        texture_name: name.clone(),
        program: None,
        texture: *tex,
        uv_offset: UvOffset {
            u: Ratio::new(0, tex.width as i64),
            v: Ratio::new(0, tex.height as i64),
        },
    }
}

/// Derives the mesh and material of a static sprite whose image was loaded
/// as `tex`.
pub fn sprite_resources(sprite: &Sprite, tex: &Texture) -> (r: Result<(Mesh, Material), DeriveError>)
    ensures
        rect_error(sprite.rect, *tex) is Some ==> r == Err::<(Mesh, Material), DeriveError>(
            rect_error(sprite.rect, *tex)->Some_0,
        ),
        rect_error(sprite.rect, *tex) is None ==> {
            &&& r is Ok
            &&& is_quad_of(r->Ok_0.0, sprite.rect, *tex)
            &&& is_fresh_material(r->Ok_0.1, sprite_shader(), sprite.image_name@, *tex)
        },
{
    match check_rect(sprite.rect, tex) {
        Some(e) => Err(e),
        None => {
            let mesh = quad_mesh(sprite.rect, tex);
            let material = fresh_material("textured", &sprite.image_name, tex);
            proof {
                reveal_strlit("textured");
            }
            Ok((mesh, material))
        },
    }
}

/// The error, if any, that keeps an animated sprite from being derived
/// against `tex`.
pub open spec fn animated_error(anim: AnimatedSprite, tex: Texture) -> Option<DeriveError> {
    if !anim.wf() {
        Some(DeriveError::NoSuchFrame)
    } else {
        rect_error(anim.current_rect(), tex)
    }
}

/// Derives the mesh and material of an animated sprite from its current
/// frame, the sheet's image having been loaded as `tex`.
pub fn animated_resources(sheet: &Spritesheet, anim: &AnimatedSprite, tex: &Texture) -> (r: Result<
    (Mesh, Material),
    DeriveError,
>)
    ensures
        animated_error(*anim, *tex) is Some ==> r == Err::<(Mesh, Material), DeriveError>(
            animated_error(*anim, *tex)->Some_0,
        ),
        animated_error(*anim, *tex) is None ==> {
            &&& r is Ok
            &&& is_quad_of(r->Ok_0.0, anim.current_rect(), *tex)
            &&& is_fresh_material(r->Ok_0.1, animated_shader(), sheet.image_name@, *tex)
        },
{
    if anim.current_anim >= anim.rects.len() || anim.current_frame
        >= anim.rects[anim.current_anim].len() {
        return Err(DeriveError::NoSuchFrame);
    }
    let rect = anim.rects[anim.current_anim][anim.current_frame];
    match check_rect(rect, tex) {
        Some(e) => Err(e),
        None => {
            let mesh = quad_mesh(rect, tex);
            let material = fresh_material("offset_textured", &sheet.image_name, tex);
            proof {
                reveal_strlit("offset_textured");
            }
            Ok((mesh, material))
        },
    }
}

} // verus!
