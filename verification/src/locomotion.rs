//! Movement intent and its resolution against the terrain.
//!
//! Turning an intent into a displacement takes the camera's orientation
//! and the frame time, which the caller has; what is decided here is which
//! axes the held keys drive, and where a displacement may end given the
//! ground.

use vstd::prelude::*;
use crate::geometry::Vec3;
use crate::terrain::{FieldModel, HeightField};

verus! {

/// Eye level of a standing player above the ground.
pub const PLAYER_HEIGHT: i64 = 5000;

/// The movement keys that are held down.
#[derive(Clone, Copy, Debug, PartialEq, Eq, Structural)]
pub struct HeldKeys {
    pub forward: bool,
    pub back: bool,
    pub right: bool,
    pub left: bool,
    pub up: bool,
    pub down: bool,
}

/// Signed weight of each movement axis: -1, 0 or 1.
#[derive(Clone, Copy, Debug, PartialEq, Eq, Structural)]
pub struct Intent {
    /// Along the camera's forward direction.
    pub advance: i8,
    /// Along the camera's right direction.
    pub strafe: i8,
    /// Along the world's up direction.
    pub climb: i8,
}

/// Weight of an axis driven by two opposed keys: each held key counts one,
/// and opposed keys cancel.
pub open spec fn axis(positive: bool, negative: bool) -> int {
    (if positive { 1int } else { 0int }) - (if negative { 1int } else { 0int })
}

fn axis_weight(positive: bool, negative: bool) -> (w: i8)
    ensures
        w == axis(positive, negative),
{
    if positive == negative {
        0
    } else if positive {
        1
    } else {
        -1
    }
}

impl HeldKeys {
    /// The three axis weights that the held keys add up to.
    pub fn intent(&self) -> (r: Intent)
        ensures
            r.advance == axis(self.forward, self.back),
            r.strafe == axis(self.right, self.left),
            r.climb == axis(self.up, self.down),
    {
        Intent {
            advance: axis_weight(self.forward, self.back),
            strafe: axis_weight(self.right, self.left),
            climb: axis_weight(self.up, self.down),
        }
    }
}

impl Intent {
    /// Whether no axis is driven.
    pub fn is_idle(&self) -> (r: bool)
        ensures
            r == (self.advance == 0 && self.strafe == 0 && self.climb == 0),
    {
        self.advance == 0 && self.strafe == 0 && self.climb == 0
    }

    /// Whether the vertical part of the intent points down.
    pub fn is_descending(&self) -> (r: bool)
        ensures
            r == (self.climb < 0),
    {
        self.climb < 0
    }
}

/// Where a move ends.
///
/// `step` is the displacement wanted for the frame and `level_step` the one
/// to use instead when a descent is arrested: the horizontal movement alone,
/// at full speed. The wanted position stands where it does not sink into the
/// terrain. Where it does, a descending player moves by the horizontal
/// displacement and is settled on the ground found there; anybody else is
/// settled on the ground under the wanted position.
pub open spec fn resolved(
    field: FieldModel,
    position: Vec3,
    step: Vec3,
    level_step: Vec3,
    descending: bool,
    height: int,
) -> Vec3 {
    let desired = position.plus(step);
    if !field.collides(desired, height) {
        desired
    } else if descending {
        field.settled(position.plus(level_step.level()), height)
    } else {
        field.settled(desired, height)
    }
}

/// Moves a player `height` tall from `position`, keeping the result on or
/// above the terrain wherever the field constrains it.
pub fn resolve_move(
    field: &HeightField,
    position: Vec3,
    step: Vec3,
    level_step: Vec3,
    descending: bool,
    height: i64,
) -> (r: Vec3)
    requires
        field@.wf(),
    ensures
        r == resolved(field@, position, step, level_step, descending, height as int),
        !field@.collides(r, height as int),
        forall|f: int|
            field@.floor(r.x as int, r.z as int, height as int) == Some(f) ==> r.y >= f,
        field@.collides(position.plus(step), height as int) && descending ==> {
            &&& r.x == position.plus(level_step.level()).x
            &&& r.z == position.plus(level_step.level()).z
            &&& r.y >= position.y
        },
        !(field@.collides(position.plus(step), height as int) && descending) ==> {
            &&& r.x == position.plus(step).x
            &&& r.z == position.plus(step).z
            &&& r.y >= position.plus(step).y
        },
{
    let desired = position.moved_by(step);
    if !field.check_collision(desired, height) {
        desired
    } else if descending {
        let corrected = position.moved_by(level_step.flattened());
        field.adjust_position(corrected, height)
    } else {
        field.adjust_position(desired, height)
    }
}

/// A resolved move never ends below the eye level that the terrain allows
/// at the place where it ends.
pub proof fn lemma_never_below_ground(
    field: FieldModel,
    position: Vec3,
    step: Vec3,
    level_step: Vec3,
    descending: bool,
    height: int,
)
    requires
        field.wf(),
    ensures
        ({
            let r = resolved(field, position, step, level_step, descending, height);
            match field.floor(r.x as int, r.z as int, height) {
                Some(f) => r.y >= f,
                None => true,
            }
        }),
{
    lemma_settled_is_clear(field, position.plus(step), height);
    lemma_settled_is_clear(field, position.plus(level_step.level()), height);
}

/// A settled position keeps its place on the map and does not sink into
/// the terrain.
pub proof fn lemma_settled_is_clear(field: FieldModel, p: Vec3, height: int)
    ensures
        field.settled(p, height).x == p.x,
        field.settled(p, height).z == p.z,
        field.settled(p, height).y >= p.y,
        !field.collides(field.settled(p, height), height),
{
    match field.floor(p.x as int, p.z as int, height) {
        Some(f) => {
            assert(i64::MIN <= f <= i64::MAX);
        },
        None => {},
    }
}

} // verus!
