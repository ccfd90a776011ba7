//! Keyboard state and the movement it causes.
use vstd::prelude::*;
use crate::component::Transform;
use crate::geometry::Vec3;

verus! {

/// The one directional key recognised in a tick, if any.
#[derive(Clone, Copy, Debug, PartialEq, Eq, Structural)]
pub enum KeycodeEx {
    NoKey,
    LeftArrow,
    UpArrow,
    DownArrow,
    RightArrow,
}

/// The keyboard resource: the direction of the current tick.
#[derive(Clone, Copy, Debug, PartialEq, Eq, Structural)]
pub struct Keyboard(pub KeycodeEx);

impl Default for Keyboard {
    fn default() -> (r: Keyboard)
        ensures
            r == Keyboard(KeycodeEx::NoKey),
    {
        Keyboard(KeycodeEx::NoKey)
    }
}

/// The direction of a tick whose key presses were `presses`, in order: the
/// last directional one, or none.
pub open spec fn last_direction(presses: Seq<KeycodeEx>) -> KeycodeEx
    decreases presses.len(),
{
    if presses.len() == 0 {
        KeycodeEx::NoKey
    } else if presses.last() != KeycodeEx::NoKey {
        presses.last()
    } else {
        last_direction(presses.drop_last())
    }
}

impl Keyboard {
    /// The keyboard state of a tick from its key presses, in order.
    pub fn from_presses(presses: &Vec<KeycodeEx>) -> (r: Keyboard)
        ensures
            r.0 == last_direction(presses@),
    {
        let mut key = KeycodeEx::NoKey;
        let mut i: usize = 0;
        while i < presses.len()
            invariant
                0 <= i <= presses@.len(),
                key == last_direction(presses@.take(i as int)),
            decreases presses.len() - i,
        {
            proof {
                assert(presses@.take(i + 1).drop_last() =~= presses@.take(i as int));
            }
            if presses[i] != KeycodeEx::NoKey {
                key = presses[i];
            }
            i = i + 1;
        }
        proof {
            assert(presses@.take(presses@.len() as int) =~= presses@);
        }
        Keyboard(key)
    }
}

/// Distance moved per tick while a direction is held.
pub const STEP: i64 = 10;

/// The displacement `(dx, dy)` that a key causes in one tick.
pub open spec fn step_of(k: KeycodeEx) -> (int, int) {
    match k {
        KeycodeEx::NoKey => (0, 0),
        KeycodeEx::LeftArrow => (-STEP, 0),
        KeycodeEx::RightArrow => (STEP as int, 0),
        KeycodeEx::UpArrow => (0, STEP as int),
        KeycodeEx::DownArrow => (0, -STEP),
    }
}

/// `v` limited to the range of `i64`.
pub open spec fn clamp_i64(v: int) -> i64 {
    if v > i64::MAX {
        i64::MAX
    } else if v < i64::MIN {
        i64::MIN
    } else {
        v as i64
    }
}

/// `t` moved by the step of `k` (saturating at the edge of the range).
pub open spec fn moved(t: Transform, k: KeycodeEx) -> Transform {
    Transform {
        position: Vec3 {
            x: clamp_i64(t.position.x + step_of(k).0),
            y: clamp_i64(t.position.y + step_of(k).1),
            z: t.position.z,
        },
        ..t
    }
}

fn shift(v: i64, up: bool) -> (r: i64)
    ensures
        r == clamp_i64(if up { v + STEP } else { v - STEP }),
{
    if up {
        if v <= i64::MAX - STEP { v + STEP } else { i64::MAX }
    } else {
        if v >= i64::MIN + STEP { v - STEP } else { i64::MIN }
    }
}

/// Moves `t` by the step of `key`.
pub fn apply_input(t: &mut Transform, key: KeycodeEx)
    ensures
        *final(t) == moved(*old(t), key),
{
    match key {
        KeycodeEx::NoKey => {},
        KeycodeEx::LeftArrow => {
            t.position.x = shift(t.position.x, false);
        },
        KeycodeEx::RightArrow => {
            t.position.x = shift(t.position.x, true);
        },
        KeycodeEx::UpArrow => {
            t.position.y = shift(t.position.y, true);
        },
        KeycodeEx::DownArrow => {
            t.position.y = shift(t.position.y, false);
        },
    }
}

/// Without a key, a transform stays where it is.
pub proof fn lemma_no_key_keeps_position(t: Transform)
    ensures
        moved(t, KeycodeEx::NoKey) == t,
{
}

} // verus!
