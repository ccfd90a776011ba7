//! The animation state machine: time accumulates until a frame's time is
//! spent, then the active sequence moves on by one frame and the material's
//! texture offset is recomputed.
use vstd::prelude::*;
use crate::component::{AnimatedSprite, Material, Texture, UvOffset};
use crate::geometry::{Ratio, Rect};
use vstd::arithmetic::div_mod::{
    lemma_add_mod_noop_right, lemma_mod_pos_bound, lemma_mod_self_0, lemma_mod_twice,
    lemma_small_mod,
};

verus! {

/// Time elapsed since the previous tick, in microseconds.
#[derive(Clone, Copy, Debug, PartialEq, Eq, Structural)]
pub struct DeltaTime(pub u64);

/// The frame after `frame` in a sequence of `len` frames, wrapping to 0.
pub open spec fn next_frame(frame: int, len: int) -> int {
    (frame + 1) % len
}

/// The state after one tick of `dt` microseconds.
pub open spec fn advanced(s: AnimatedSprite, dt: int) -> AnimatedSprite {
    if s.tick + dt < s.frame_time {
        AnimatedSprite { tick: (s.tick + dt) as u64, ..s }
    } else {
        AnimatedSprite {
            tick: 0,
            current_frame: next_frame(s.current_frame as int, s.frame_count() as int) as usize,
            ..s
        }
    }
}

/// A tick of `dt` moves the animation to another frame.
pub open spec fn changes_frame(s: AnimatedSprite, dt: int) -> bool {
    s.tick + dt >= s.frame_time
}

/// The texture offset that moves coordinates derived from `origin` onto `rect`.
pub open spec fn offset_between(rect: Rect, origin: Rect, tex: Texture) -> UvOffset {
    UvOffset {
        u: Ratio { num: (rect.x - origin.x) as i64, den: tex.width as i64 },
        v: Ratio { num: (rect.y - origin.y) as i64, den: tex.height as i64 },
    }
}

/// The texture offset of the sprite's current frame.
pub open spec fn frame_offset(s: AnimatedSprite, tex: Texture) -> UvOffset {
    offset_between(s.current_rect(), s.rect_origin, tex)
}

/// The material after a tick of `dt` of the animation `s`: on a frame change
/// the offset becomes that of the new frame, else nothing changes.
pub open spec fn updated_material(m: Material, s: AnimatedSprite, dt: int) -> Material {
    if changes_frame(s, dt) {
        Material { uv_offset: frame_offset(advanced(s, dt), m.texture), ..m }
    } else {
        m
    }
}

/// Computes the texture offset from `origin` to `rect` on `tex`.
pub fn uv_offset_of(rect: Rect, origin: Rect, tex: &Texture) -> (r: UvOffset)
    ensures
        r == offset_between(rect, origin, *tex),
{
    UvOffset {
        u: Ratio { num: rect.x as i64 - origin.x as i64, den: tex.width as i64 },
        v: Ratio { num: rect.y as i64 - origin.y as i64, den: tex.height as i64 },
    }
}

/// Advances `sprite` by `dt` microseconds. When a frame change happens, the
/// material's offset is set to that of the new frame; nothing else of the
/// material changes.
pub fn advance(sprite: &mut AnimatedSprite, material: &mut Material, dt: u64)
    requires
        old(sprite).wf(),
    ensures
        *final(sprite) == advanced(*old(sprite), dt as int),
        final(sprite).wf(),
        *final(material) == updated_material(*old(material), *old(sprite), dt as int),
{
    if dt < sprite.frame_time && sprite.tick < sprite.frame_time - dt {
        sprite.tick = sprite.tick + dt;
        return;
    }
    sprite.tick = 0;
    let len = sprite.rects[sprite.current_anim].len();
    if sprite.current_frame + 1 < len {
        proof {
            lemma_small_mod((sprite.current_frame + 1) as nat, len as nat);
        }
        sprite.current_frame = sprite.current_frame + 1;
    } else {
        proof {
            lemma_mod_self_0(len as int);
        }
        sprite.current_frame = 0;
    }
    let rect = sprite.rects[sprite.current_anim][sprite.current_frame];
    material.uv_offset = uv_offset_of(rect, sprite.rect_origin, &material.texture);
}

/// The state after `n` ticks of `dt` microseconds each.
pub open spec fn advanced_times(s: AnimatedSprite, dt: int, n: nat) -> AnimatedSprite
    decreases n,
{
    if n == 0 {
        s
    } else {
        advanced(advanced_times(s, dt, (n - 1) as nat), dt)
    }
}

proof fn lemma_frame_steps(s: AnimatedSprite, k: nat)
    requires
        s.wf(),
    ensures
        advanced_times(s, s.frame_time as int, k).rects == s.rects,
        advanced_times(s, s.frame_time as int, k).current_anim == s.current_anim,
        advanced_times(s, s.frame_time as int, k).frame_time == s.frame_time,
        advanced_times(s, s.frame_time as int, k).current_frame == (s.current_frame + k)
            % (s.frame_count() as int),
    decreases k,
{
    let n = s.frame_count() as int;
    if k == 0 {
        lemma_small_mod(s.current_frame as nat, n as nat);
    } else {
        lemma_frame_steps(s, (k - 1) as nat);
        lemma_mod_pos_bound(s.current_frame + k - 1, n);
        lemma_add_mod_noop_right(1, s.current_frame + k - 1, n);
        lemma_mod_pos_bound(s.current_frame + k, n);
    }
}

/// Ticking by exactly the frame time as many times as the active sequence has
/// frames brings the animation back to the frame it started on.
pub proof fn lemma_full_cycle(s: AnimatedSprite)
    requires
        s.wf(),
    ensures
        advanced_times(s, s.frame_time as int, s.frame_count()).current_frame == s.current_frame,
        advanced_times(s, s.frame_time as int, s.frame_count()).wf(),
{
    let n = s.frame_count() as int;
    lemma_frame_steps(s, s.frame_count());
    lemma_mod_twice(s.current_frame as int, n);
    vstd::arithmetic::div_mod::lemma_mod_add_multiples_vanish(s.current_frame as int, n);
    lemma_small_mod(s.current_frame as nat, n as nat);
}

/// A tick that does not complete the frame time keeps the frame (and so the
/// material's offset, see `advance`) and adds `dt` to the accumulated time.
pub proof fn lemma_short_tick(s: AnimatedSprite, dt: int)
    requires
        s.wf(),
        0 <= dt < s.frame_time,
        s.tick + dt < s.frame_time,
    ensures
        !changes_frame(s, dt),
        advanced(s, dt).current_frame == s.current_frame,
        advanced(s, dt).tick == s.tick + dt,
        advanced(s, dt).tick >= s.tick,
{
}

/// A tick of at least the frame time moves on by exactly one frame, wrapping
/// at the end of the sequence, and resets the accumulated time, however far
/// `dt` exceeds the frame time.
pub proof fn lemma_long_tick(s: AnimatedSprite, dt: int)
    requires
        s.wf(),
        dt >= s.frame_time,
    ensures
        changes_frame(s, dt),
        advanced(s, dt).current_frame == (s.current_frame + 1) % (s.frame_count() as int),
        advanced(s, dt).tick == 0,
        advanced(s, dt).wf(),
{
    lemma_mod_pos_bound(s.current_frame + 1, s.frame_count() as int);
}

/// When the current frame is the origin frame, its offset is zero.
pub proof fn lemma_origin_offset_zero(s: AnimatedSprite, tex: Texture)
    requires
        s.wf(),
        s.current_rect() == s.rect_origin,
    ensures
        frame_offset(s, tex).u.num == 0,
        frame_offset(s, tex).v.num == 0,
{
}

} // verus!
