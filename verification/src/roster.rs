//! Player snapshots, rosters, and the pure functions that say what a
//! roster contributes to the shared state.

use vstd::prelude::*;
use vstd::string::{StrSliceExecFns, StringExecFns};
use crate::geometry::Vec3;

verus! {

/// Number of characters of an id that a join notification shows.
pub const ID_PREFIX_LEN: usize = 6;

/// One player's state at a point in time, as exchanged with the server.
/// `rotation` holds pitch, yaw and roll.
#[derive(Debug)]
pub struct PlayerState {
    pub id: String,
    pub position: Vec3,
    pub rotation: Vec3,
}

/// Mathematical model of a [`PlayerState`].
pub struct PlayerView {
    pub id: Seq<char>,
    pub position: Vec3,
    pub rotation: Vec3,
}

impl View for PlayerState {
    type V = PlayerView;

    open spec fn view(&self) -> PlayerView {
        PlayerView { id: self.id@, position: self.position, rotation: self.rotation }
    }
}

impl Clone for PlayerState {
    fn clone(&self) -> (r: PlayerState)
        ensures
            r@ == self@,
    {
        PlayerState { id: self.id.clone(), position: self.position, rotation: self.rotation }
    }
}

impl PlayerState {
    pub fn new(id: String, position: Vec3, rotation: Vec3) -> (r: PlayerState)
        ensures
            r@ == (PlayerView { id: id@, position, rotation }),
    {
        PlayerState { id, position, rotation }
    }
}

/// The models of the entries of a roster, in order.
pub open spec fn views(r: Seq<PlayerState>) -> Seq<PlayerView> {
    r.map_values(|p: PlayerState| p@)
}

/// Whether some entry of `r` carries `id`.
pub open spec fn has_id(r: Seq<PlayerView>, id: Seq<char>) -> bool {
    exists|i: int| 0 <= i < r.len() && (#[trigger] r[i]).id == id
}

/// No two entries of `r` carry the same id.
pub open spec fn distinct_ids(r: Seq<PlayerView>) -> bool {
    forall|i: int, j: int| 0 <= i < j < r.len() ==> (#[trigger] r[i]).id != (#[trigger] r[j]).id
}

/// The mapping from id to snapshot obtained by entering the entries of `r`
/// in order, leaving out the id `skip`; a later entry replaces an earlier
/// one with the same id.
pub open spec fn gather(r: Seq<PlayerView>, skip: Option<Seq<char>>) -> Map<Seq<char>, PlayerView>
    decreases r.len(),
{
    if r.len() == 0 {
        Map::empty()
    } else {
        let rest = gather(r.drop_last(), skip);
        let e = r.last();
        if skip == Some(e.id) {
            rest
        } else {
            rest.insert(e.id, e)
        }
    }
}

/// The ids that `r` introduces, in the order of their first appearance:
/// those that are neither `local` nor among the ids `prev` known before.
pub open spec fn joined(r: Seq<PlayerView>, local: Seq<char>, prev: Set<Seq<char>>) -> Seq<
    Seq<char>,
>
    decreases r.len(),
{
    if r.len() == 0 {
        Seq::empty()
    } else {
        let head = joined(r.drop_last(), local, prev);
        let id = r.last().id;
        if id == local || prev.contains(id) || has_id(r.drop_last(), id) {
            head
        } else {
            head.push(id)
        }
    }
}

/// The last `k` items of `s`, or all of `s` where it has no more than `k`.
pub open spec fn keep_last<T>(s: Seq<T>, k: nat) -> Seq<T> {
    if s.len() <= k {
        s
    } else {
        s.subrange(s.len() - k, s.len() as int)
    }
}

/// The part of an id that a join notification shows.
pub open spec fn shown_prefix(id: Seq<char>) -> Seq<char> {
    if id.len() <= ID_PREFIX_LEN {
        id
    } else {
        id.subrange(0, ID_PREFIX_LEN as int)
    }
}

/// Text of the notification for a player who joined.
pub open spec fn join_line(id: Seq<char>) -> Seq<char> {
    "Player "@ + shown_prefix(id) + "... joined"@
}

/// The notifications for a sequence of ids, in order.
pub open spec fn announcements(ids: Seq<Seq<char>>) -> Seq<Seq<char>> {
    ids.map_values(|id: Seq<char>| join_line(id))
}

/// Builds the notification for a player who joined.
pub fn join_message(id: &String) -> (r: String)
    ensures
        r@ == join_line(id@),
{
    let whole = id.as_str();
    let n: usize = whole.unicode_len();
    let shown = if n <= ID_PREFIX_LEN {
        whole
    } else {
        whole.substring_char(0, ID_PREFIX_LEN)
    };
    let mut line = "Player ".to_owned();
    line.append(shown);
    line.append("... joined");
    line
}

/// Position of the entry of `list` that carries `id`, if there is one.
pub fn find_id(list: &Vec<PlayerState>, id: &String) -> (r: Option<usize>)
    ensures
        match r {
            Some(j) => j < list.len() && list[j as int].id@ == id@ && forall|k: int|
                0 <= k < j ==> (#[trigger] list[k]).id@ != id@,
            None => !has_id(views(list@), id@),
        },
{
    let mut i: usize = 0;
    while i < list.len()
        invariant
            i <= list.len(),
            forall|k: int| 0 <= k < i ==> (#[trigger] list[k]).id@ != id@,
        decreases list.len() - i,
    {
        if list[i].id == *id {
            return Some(i);
        }
        i += 1;
    }
    proof {
        assert forall|k: int| 0 <= k < views(list@).len() implies (#[trigger] views(
            list@,
        )[k]).id != id@ by {
            assert(views(list@)[k] == list[k]@);
        }
    }
    None
}

/// An id is a key of the gathered mapping exactly when some entry carries
/// it and it is not the one left out.
pub proof fn lemma_gather_domain(r: Seq<PlayerView>, skip: Option<Seq<char>>)
    ensures
        forall|id: Seq<char>| #[trigger]
            gather(r, skip).dom().contains(id) <==> has_id(r, id) && skip != Some(id),
    decreases r.len(),
{
    if r.len() > 0 {
        let rest = r.drop_last();
        lemma_gather_domain(rest, skip);
        assert forall|id: Seq<char>| #[trigger]
            gather(r, skip).dom().contains(id) <==> has_id(r, id) && skip != Some(id) by {
            assert(gather(rest, skip).dom().contains(id) <==> has_id(rest, id) && skip != Some(
                id,
            ));
            if has_id(rest, id) {
                let i = choose|i: int| 0 <= i < rest.len() && (#[trigger] rest[i]).id == id;
                assert(r[i] == rest[i]);
                assert(r[i].id == id);
            }
            if has_id(r, id) {
                let i = choose|i: int| 0 <= i < r.len() && (#[trigger] r[i]).id == id;
                if i < r.len() - 1 {
                    assert(rest[i] == r[i]);
                    assert(rest[i].id == id);
                } else {
                    assert(r.last().id == id);
                }
            }
            if r.last().id == id {
                assert(r[r.len() - 1].id == id);
            }
        }
    }
}

/// The gathered mapping sends an id to the last entry that carries it.
pub proof fn lemma_gather_last_wins(r: Seq<PlayerView>, skip: Option<Seq<char>>, i: int)
    requires
        0 <= i < r.len(),
        skip != Some(r[i].id),
        forall|j: int| i < j < r.len() ==> (#[trigger] r[j]).id != r[i].id,
    ensures
        gather(r, skip).dom().contains(r[i].id),
        gather(r, skip)[r[i].id] == r[i],
    decreases r.len(),
{
    let rest = r.drop_last();
    if i < r.len() - 1 {
        assert(r[r.len() - 1].id != r[i].id);
        assert(rest[i] == r[i]);
        assert forall|j: int| i < j < rest.len() implies (#[trigger] rest[j]).id != rest[i].id by {
            assert(rest[j] == r[j]);
        }
        lemma_gather_last_wins(rest, skip, i);
    }
}

/// No key of a gathered mapping is the id that was left out.
pub proof fn lemma_gather_skips(r: Seq<PlayerView>, id: Seq<char>)
    ensures
        !gather(r, Some(id)).dom().contains(id),
{
    lemma_gather_domain(r, Some(id));
}

/// Every key of a gathered mapping leads to a snapshot that carries it.
pub proof fn lemma_gather_keys(r: Seq<PlayerView>, skip: Option<Seq<char>>)
    ensures
        forall|id: Seq<char>| #[trigger]
            gather(r, skip).dom().contains(id) ==> gather(r, skip)[id].id == id,
    decreases r.len(),
{
    if r.len() > 0 {
        let rest = r.drop_last();
        lemma_gather_keys(rest, skip);
        assert forall|id: Seq<char>| #[trigger]
            gather(r, skip).dom().contains(id) implies gather(r, skip)[id].id == id by {
            if skip == Some(r.last().id) {
                assert(gather(r, skip) == gather(rest, skip));
            } else if id != r.last().id {
                assert(gather(rest, skip).dom().contains(id));
            }
        }
    }
}

/// Replacing the entry that carries an id keeps the ids distinct and
/// changes the gathered mapping at that id alone.
pub proof fn lemma_gather_update(f: Seq<PlayerView>, j: int, e: PlayerView)
    requires
        distinct_ids(f),
        0 <= j < f.len(),
        f[j].id == e.id,
    ensures
        distinct_ids(f.update(j, e)),
        gather(f.update(j, e), None) =~= gather(f, None).insert(e.id, e),
{
    let g = f.update(j, e);
    assert forall|a: int, b: int| 0 <= a < b < g.len() implies (#[trigger] g[a]).id != (
    #[trigger] g[b]).id by {
        assert(g[a].id == f[a].id);
        assert(g[b].id == f[b].id);
    }
    lemma_gather_domain(f, None);
    lemma_gather_domain(g, None);
    let lhs = gather(g, None);
    let rhs = gather(f, None).insert(e.id, e);
    assert forall|id: Seq<char>| lhs.dom().contains(id) <==> rhs.dom().contains(id) by {
        if has_id(g, id) {
            let i = choose|i: int| 0 <= i < g.len() && (#[trigger] g[i]).id == id;
            assert(f[i].id == id);
        }
        if has_id(f, id) {
            let i = choose|i: int| 0 <= i < f.len() && (#[trigger] f[i]).id == id;
            assert(g[i].id == id);
        }
        if id == e.id {
            assert(g[j].id == id);
        }
    }
    assert forall|id: Seq<char>| lhs.dom().contains(id) implies lhs[id] == rhs[id] by {
        let i = choose|i: int| 0 <= i < g.len() && (#[trigger] g[i]).id == id;
        assert(f[i].id == g[i].id);
        lemma_gather_last_wins(g, None, i);
        if i == j {
        } else {
            assert(g[i] == f[i]);
            assert(f[j].id != f[i].id);
            lemma_gather_last_wins(f, None, i);
        }
    }
}

/// Appending an entry with a new id keeps the ids distinct and enters it
/// in the gathered mapping.
pub proof fn lemma_gather_push(f: Seq<PlayerView>, e: PlayerView)
    requires
        distinct_ids(f),
        !has_id(f, e.id),
    ensures
        distinct_ids(f.push(e)),
        gather(f.push(e), None) == gather(f, None).insert(e.id, e),
{
    let g = f.push(e);
    assert(g.drop_last() =~= f);
    assert forall|a: int, b: int| 0 <= a < b < g.len() implies (#[trigger] g[a]).id != (
    #[trigger] g[b]).id by {
        if b == f.len() {
            assert(f[a].id != e.id);
        } else {
            assert(g[a] == f[a] && g[b] == f[b]);
        }
    }
}

/// Keeping the last `k` items after each addition gives the last `k` items
/// of everything that was ever added.
pub proof fn lemma_keep_last_compose<T>(a: Seq<T>, b: Seq<T>, k: nat)
    ensures
        keep_last(keep_last(a, k) + b, k) == keep_last(a + b, k),
        keep_last(a, k).len() <= k,
{
    assert(keep_last(keep_last(a, k) + b, k) =~= keep_last(a + b, k));
}

/// Adding one item to a window of at most `k` and dropping the oldest on
/// overflow keeps the window on the last `k` items.
pub proof fn lemma_keep_last_push<T>(a: Seq<T>, x: T, k: nat)
    requires
        k > 0,
    ensures
        ({
            let w = keep_last(a, k).push(x);
            keep_last(a.push(x), k) == if w.len() > k {
                w.subrange(1, w.len() as int)
            } else {
                w
            }
        }),
{
    let w = keep_last(a, k).push(x);
    if w.len() > k {
        assert(keep_last(a.push(x), k) =~= w.subrange(1, w.len() as int));
    } else {
        assert(keep_last(a.push(x), k) =~= w);
    }
}

/// The ids that a roster introduces are exactly the keys of the mapping
/// gathered from it that were not known before, each named once.
pub proof fn lemma_joined_are_new_keys(r: Seq<PlayerView>, local: Seq<char>, prev: Set<Seq<char>>)
    ensures
        forall|id: Seq<char>| #[trigger]
            joined(r, local, prev).contains(id) <==> gather(r, Some(local)).dom().contains(id)
                && !prev.contains(id),
        joined(r, local, prev).no_duplicates(),
    decreases r.len(),
{
    let now = joined(r, local, prev);
    if r.len() > 0 {
        let rest = r.drop_last();
        let head = joined(rest, local, prev);
        let last = r.last().id;
        lemma_joined_are_new_keys(rest, local, prev);
        lemma_gather_domain(rest, Some(local));
        lemma_gather_domain(r, Some(local));
        assert forall|id: Seq<char>| #[trigger]
            now.contains(id) <==> gather(r, Some(local)).dom().contains(id) && !prev.contains(
                id,
            ) by {
            if now.contains(id) {
                let i = choose|i: int| 0 <= i < now.len() && now[i] == id;
                if i < head.len() {
                    assert(head[i] == id);
                    assert(head.contains(id));
                }
            }
            if head.contains(id) {
                let i = choose|i: int| 0 <= i < head.len() && head[i] == id;
                assert(now[i] == id);
            }
            if now.len() > head.len() {
                assert(now[now.len() - 1] == last);
            }
        }
        assert(now.no_duplicates()) by {
            if now.len() > head.len() {
                assert(!head.contains(last));
                assert forall|a: int, b: int| 0 <= a < now.len() && 0 <= b < now.len() && a
                    != b implies now[a] != now[b] by {
                    if a < head.len() {
                        assert(head[a] == now[a]);
                        assert(head.contains(now[a]));
                    }
                    if b < head.len() {
                        assert(head[b] == now[b]);
                        assert(head.contains(now[b]));
                    }
                }
            }
        }
    } else {
        assert forall|id: Seq<char>| !(#[trigger] now.contains(id)) by {}
    }
}

} // verus!
