//! Deduction of the local player's id from a roster.
//!
//! The server sends no handshake, so the client guesses which roster entry
//! is its own. The guess is a decision tree with three ordered branches,
//! and each result says which branch produced it.

use vstd::prelude::*;
use crate::geometry::Vec3;
use crate::roster::{views, PlayerState, PlayerView};
use crate::world::SharedWorldState;

verus! {

/// Where the server puts a player who has just connected.
pub const SPAWN_X: i64 = 0;

pub const SPAWN_Y: i64 = 5000;

pub const SPAWN_Z: i64 = 0;

/// How far from the spawn point, along each axis, a position still counts
/// as a fresh spawn. The bound itself is excluded.
pub const SPAWN_TOLERANCE: i64 = 100;

/// The branch of the decision tree that produced an identity.
#[derive(Clone, Copy, Debug, PartialEq, Eq, Structural)]
pub enum Rule {
    /// An unrecognized id stands at the spawn point.
    SpawnPoint,
    /// The roster holds a single entry.
    OnlyPlayer,
    /// The first unrecognized id of the roster.
    FirstUnrecognized,
}

/// An accepted identity: the roster entry, and why.
#[derive(Clone, Copy, Debug, PartialEq, Eq, Structural)]
pub struct Deduction {
    pub index: usize,
    pub rule: Rule,
}

/// Whether `p` is strictly within the tolerance of the spawn point on all
/// three axes.
pub open spec fn near_spawn(p: Vec3) -> bool {
    &&& SPAWN_X - SPAWN_TOLERANCE < p.x < SPAWN_X + SPAWN_TOLERANCE
    &&& SPAWN_Y - SPAWN_TOLERANCE < p.y < SPAWN_Y + SPAWN_TOLERANCE
    &&& SPAWN_Z - SPAWN_TOLERANCE < p.z < SPAWN_Z + SPAWN_TOLERANCE
}

/// Entry `i` of `r` carries an id that is not among `known`.
pub open spec fn unrecognized(r: Seq<PlayerView>, known: Set<Seq<char>>, i: int) -> bool {
    0 <= i < r.len() && !known.contains(r[i].id)
}

/// Entry `i` of `r` is unrecognized and stands at the spawn point.
pub open spec fn fresh_spawn(r: Seq<PlayerView>, known: Set<Seq<char>>, i: int) -> bool {
    unrecognized(r, known, i) && near_spawn(r[i].position)
}

/// No entry of `r` is an unrecognized one at the spawn point.
pub open spec fn no_fresh_spawn(r: Seq<PlayerView>, known: Set<Seq<char>>) -> bool {
    forall|k: int| 0 <= k < r.len() ==> !#[trigger] fresh_spawn(r, known, k)
}

/// Entry `i` is the first unrecognized entry at the spawn point.
pub open spec fn first_fresh_spawn(r: Seq<PlayerView>, known: Set<Seq<char>>, i: int) -> bool {
    fresh_spawn(r, known, i) && forall|k: int| 0 <= k < i ==> !#[trigger] fresh_spawn(r, known, k)
}

/// Entry `i` is the first unrecognized entry.
pub open spec fn first_unrecognized(r: Seq<PlayerView>, known: Set<Seq<char>>, i: int) -> bool {
    unrecognized(r, known, i) && forall|k: int| 0 <= k < i ==> !#[trigger] unrecognized(r, known, k)
}

/// What the decision tree makes of the roster `r` when the ids `known`
/// belong to other players. The branches are tried in this order:
/// the first unrecognized entry at the spawn point; failing that, the
/// single entry of a one-entry roster; failing that, the first unrecognized
/// entry. With none of these the identity stays unresolved.
pub open spec fn deduced(r: Seq<PlayerView>, known: Set<Seq<char>>, d: Option<Deduction>) -> bool {
    match d {
        Some(d) => match d.rule {
            Rule::SpawnPoint => first_fresh_spawn(r, known, d.index as int),
            Rule::OnlyPlayer => no_fresh_spawn(r, known) && r.len() == 1 && d.index == 0,
            Rule::FirstUnrecognized => no_fresh_spawn(r, known) && r.len() != 1
                && first_unrecognized(r, known, d.index as int),
        },
        None => r.len() != 1 && forall|k: int|
            0 <= k < r.len() ==> !#[trigger] unrecognized(r, known, k),
    }
}

/// Whether `p` counts as a fresh spawn position.
pub fn is_near_spawn(p: Vec3) -> (r: bool)
    ensures
        r == near_spawn(p),
{
    SPAWN_X - SPAWN_TOLERANCE < p.x && p.x < SPAWN_X + SPAWN_TOLERANCE && SPAWN_Y
        - SPAWN_TOLERANCE < p.y && p.y < SPAWN_Y + SPAWN_TOLERANCE && SPAWN_Z - SPAWN_TOLERANCE
        < p.z && p.z < SPAWN_Z + SPAWN_TOLERANCE
}

/// Runs the decision tree on `roster`, taking as recognized the ids that
/// `world` records for other players.
pub fn deduce(roster: &Vec<PlayerState>, world: &SharedWorldState) -> (d: Option<Deduction>)
    ensures
        deduced(views(roster@), world@.others.dom(), d),
        d.is_some() ==> d.unwrap().index < roster.len(),
{
    let ghost r = views(roster@);
    let ghost known = world@.others.dom();
    let mut first: Option<usize> = None;
    let mut i: usize = 0;
    while i < roster.len()
        invariant
            i <= roster.len(),
            r == views(roster@),
            known == world@.others.dom(),
            forall|k: int| 0 <= k < i ==> !#[trigger] fresh_spawn(r, known, k),
            match first {
                Some(j) => j < i && first_unrecognized(r, known, j as int),
                None => forall|k: int| 0 <= k < i ==> !#[trigger] unrecognized(r, known, k),
            },
        decreases roster.len() - i,
    {
        let entry = &roster[i];
        assert(r[i as int] == entry@);
        if !world.knows(&entry.id) {
            if is_near_spawn(entry.position) {
                return Some(Deduction { index: i, rule: Rule::SpawnPoint });
            }
            if first.is_none() {
                first = Some(i);
            }
        }
        i += 1;
    }
    if roster.len() == 1 {
        Some(Deduction { index: 0, rule: Rule::OnlyPlayer })
    } else {
        match first {
            Some(j) => Some(Deduction { index: j, rule: Rule::FirstUnrecognized }),
            None => None,
        }
    }
}

/// The decision tree has one answer: two results that it allows for the
/// same roster and the same known ids are equal.
pub proof fn lemma_deduction_unique(
    r: Seq<PlayerView>,
    known: Set<Seq<char>>,
    a: Option<Deduction>,
    b: Option<Deduction>,
)
    requires
        deduced(r, known, a),
        deduced(r, known, b),
    ensures
        a == b,
{
    match (a, b) {
        (Some(x), Some(y)) => {
            let i = x.index as int;
            let j = y.index as int;
            if x.rule == Rule::SpawnPoint || y.rule == Rule::SpawnPoint {
                if x.rule == Rule::SpawnPoint {
                    assert(fresh_spawn(r, known, i));
                }
                if y.rule == Rule::SpawnPoint {
                    assert(fresh_spawn(r, known, j));
                }
                assert(x.rule == y.rule);
                assert(!(i < j) && !(j < i));
            } else if x.rule == Rule::FirstUnrecognized && y.rule == Rule::FirstUnrecognized {
                assert(unrecognized(r, known, i) && unrecognized(r, known, j));
                assert(!(i < j) && !(j < i));
            }
        },
        (Some(x), None) => {
            if x.rule == Rule::SpawnPoint {
                assert(fresh_spawn(r, known, x.index as int));
            }
            assert(unrecognized(r, known, x.index as int));
        },
        (None, Some(y)) => {
            if y.rule == Rule::SpawnPoint {
                assert(fresh_spawn(r, known, y.index as int));
            }
            assert(unrecognized(r, known, y.index as int));
        },
        (None, None) => {},
    }
}

/// Before anybody else is known, a roster whose first entry stands at the
/// spawn point resolves to that entry, by the spawn-point branch.
pub proof fn lemma_spawn_first(r: Seq<PlayerView>)
    requires
        r.len() > 0,
        near_spawn(r[0].position),
    ensures
        deduced(r, Set::empty(), Some(Deduction { index: 0, rule: Rule::SpawnPoint })),
{
}

/// Before anybody else is known, a roster of two or more entries with
/// nobody at the spawn point resolves to its first entry, by the fallback
/// branch.
pub proof fn lemma_fallback_first(r: Seq<PlayerView>)
    requires
        r.len() >= 2,
        forall|k: int| 0 <= k < r.len() ==> !near_spawn(#[trigger] r[k].position),
    ensures
        deduced(r, Set::empty(), Some(Deduction { index: 0, rule: Rule::FirstUnrecognized })),
{
}

} // verus!
