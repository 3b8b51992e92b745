//! The state shared between the network side and the frame loop: who we
//! are, who else is there, and the most recent join notifications.

use std::collections::VecDeque;
use vstd::prelude::*;
use crate::geometry::Vec3;
use crate::roster::{
    announcements, distinct_ids, find_id, gather, has_id, join_line, join_message, joined,
    keep_last, lemma_gather_domain, lemma_gather_keys, lemma_gather_push, lemma_gather_skips,
    lemma_gather_update, lemma_keep_last_compose, lemma_keep_last_push, views, PlayerState,
    PlayerView,
};

verus! {

/// Capacity of the join log.
pub const MAX_JOIN_MESSAGES: usize = 5;

/// Mathematical model of a [`SharedWorldState`].
pub struct WorldView {
    /// Our own id, once it is known.
    pub local_id: Option<Seq<char>>,
    /// Last known snapshot of every other player, by id.
    pub others: Map<Seq<char>, PlayerView>,
    /// Join notifications, oldest first.
    pub log: Seq<Seq<char>>,
}

/// The texts of a queue of strings, in order.
pub open spec fn lines(q: Seq<String>) -> Seq<Seq<char>> {
    q.map_values(|s: String| s@)
}

/// The models of a sequence of rosters, in order.
pub open spec fn rosters(p: Seq<Vec<PlayerState>>) -> Seq<Seq<PlayerView>> {
    p.map_values(|r: Vec<PlayerState>| views(r@))
}

/// The text of an optional string.
pub open spec fn text_of(s: Option<String>) -> Option<Seq<char>> {
    match s {
        Some(t) => Some(t@),
        None => None,
    }
}

impl WorldView {
    /// The log is within its capacity; the local id is not among the
    /// others; nobody else is recorded before the local id is known; every
    /// snapshot is filed under its own id.
    pub open spec fn wf(self) -> bool {
        &&& self.log.len() <= MAX_JOIN_MESSAGES
        &&& match self.local_id {
            Some(l) => !self.others.dom().contains(l),
            None => self.others == Map::<Seq<char>, PlayerView>::empty(),
        }
        &&& forall|id: Seq<char>| #[trigger]
            self.others.dom().contains(id) ==> self.others[id].id == id
    }

    /// The state with nothing known.
    pub open spec fn initial() -> WorldView {
        WorldView { local_id: None, others: Map::empty(), log: Seq::empty() }
    }

    /// The state after `id` was offered as the local id: taken where none
    /// was known, ignored otherwise.
    pub open spec fn identified(self, id: Seq<char>) -> WorldView {
        match self.local_id {
            Some(_) => self,
            None => WorldView { local_id: Some(id), ..self },
        }
    }

    /// The state after the roster `r` was applied: untouched while the
    /// local id is unknown; otherwise the others are gathered afresh from
    /// `r` without the local id, and the log gains one line per id that was
    /// not known before, keeping the most recent lines only.
    pub open spec fn reconciled(self, r: Seq<PlayerView>) -> WorldView {
        match self.local_id {
            None => self,
            Some(l) => WorldView {
                local_id: self.local_id,
                others: gather(r, Some(l)),
                log: keep_last(self.log + self.announced(r), MAX_JOIN_MESSAGES as nat),
            },
        }
    }

    /// The notifications that applying the roster `r` gives rise to, one
    /// per id that `r` introduces, whether or not the log still holds them
    /// afterwards.
    pub open spec fn announced(self, r: Seq<PlayerView>) -> Seq<Seq<char>> {
        match self.local_id {
            None => Seq::empty(),
            Some(l) => announcements(joined(r, l, self.others.dom())),
        }
    }

    /// The state after a frame's pending rosters were drained: only the
    /// most recent one is applied.
    pub open spec fn drained(self, pending: Seq<Seq<PlayerView>>) -> WorldView {
        if pending.len() == 0 {
            self
        } else {
            self.reconciled(pending.last())
        }
    }

    /// The state after the rosters `rs` were applied one after the other.
    pub open spec fn replayed(self, rs: Seq<Seq<PlayerView>>) -> WorldView
        decreases rs.len(),
    {
        if rs.len() == 0 {
            self
        } else {
            self.replayed(rs.drop_last()).reconciled(rs.last())
        }
    }

    /// Every notification that applying the rosters `rs` one after the
    /// other gives rise to, oldest first.
    pub open spec fn history(self, rs: Seq<Seq<PlayerView>>) -> Seq<Seq<char>>
        decreases rs.len(),
    {
        if rs.len() == 0 {
            Seq::empty()
        } else {
            self.history(rs.drop_last()) + self.replayed(rs.drop_last()).announced(rs.last())
        }
    }

    /// The notifications that draining a frame's pending rosters gives
    /// rise to.
    pub open spec fn drained_announced(self, pending: Seq<Seq<PlayerView>>) -> Seq<Seq<char>> {
        if pending.len() == 0 {
            Seq::empty()
        } else {
            self.announced(pending.last())
        }
    }
}

/// Local identity, remote snapshots and the bounded join log.
pub struct SharedWorldState {
    local_player_id: Option<String>,
    other_players: Vec<PlayerState>,
    join_log: VecDeque<String>,
}

impl View for SharedWorldState {
    type V = WorldView;

    closed spec fn view(&self) -> WorldView {
        WorldView {
            local_id: text_of(self.local_player_id),
            others: gather(views(self.other_players@), None),
            log: lines(self.join_log@),
        }
    }
}

impl SharedWorldState {
    /// The representation is sound and the model is well formed.
    pub closed spec fn wf(&self) -> bool {
        &&& distinct_ids(views(self.other_players@))
        &&& self@.wf()
    }

    /// A well-formed state has a well-formed model.
    pub proof fn lemma_wf_model(&self)
        requires
            self.wf(),
        ensures
            self@.wf(),
            self@.log.len() <= MAX_JOIN_MESSAGES,
            self@.local_id.is_some() ==> !self@.others.dom().contains(self@.local_id.unwrap()),
    {
    }

    pub fn new() -> (s: SharedWorldState)
        ensures
            s.wf(),
            s@ == WorldView::initial(),
    {
        let s = SharedWorldState {
            local_player_id: None,
            other_players: Vec::new(),
            join_log: VecDeque::new(),
        };
        proof {
            assert(views(s.other_players@) =~= Seq::<PlayerView>::empty());
            assert(s@.log =~= Seq::<Seq<char>>::empty());
        }
        s
    }

    /// Our own id, once known.
    pub fn local_player_id(&self) -> (r: &Option<String>)
        ensures
            text_of(*r) == self@.local_id,
    {
        &self.local_player_id
    }

    /// The other players' snapshots, one per id, in no particular order.
    pub fn other_players(&self) -> (r: &Vec<PlayerState>)
        requires
            self.wf(),
        ensures
            distinct_ids(views(r@)),
            gather(views(r@), None) == self@.others,
            forall|id: Seq<char>| has_id(views(r@), id) <==> self@.others.dom().contains(id),
    {
        proof {
            lemma_gather_domain(views(self.other_players@), None);
        }
        &self.other_players
    }

    /// The join notifications, oldest first.
    pub fn join_log(&self) -> (r: &VecDeque<String>)
        ensures
            lines(r@) == self@.log,
    {
        &self.join_log
    }

    /// Whether another player with this id is recorded.
    pub fn knows(&self, id: &String) -> (r: bool)
        ensures
            r == self@.others.dom().contains(id@),
    {
        proof {
            lemma_gather_domain(views(self.other_players@), None);
        }
        match find_id(&self.other_players, id) {
            Some(j) => {
                assert(views(self.other_players@)[j as int].id == id@);
                true
            },
            None => false,
        }
    }

    /// Offers `id` as the local id. It is taken where none was known; a
    /// known id never changes. Returns whether it was taken.
    pub fn set_local_id(&mut self, id: String) -> (taken: bool)
        requires
            old(self).wf(),
        ensures
            final(self).wf(),
            final(self)@ == old(self)@.identified(id@),
            taken == old(self)@.local_id.is_none(),
            old(self)@.local_id.is_some() ==> final(self)@.local_id == old(self)@.local_id,
    {
        if self.local_player_id.is_none() {
            self.local_player_id = Some(id);
            true
        } else {
            false
        }
    }

    /// Applies one roster broadcast by the server and returns the join
    /// notifications that it gave rise to, in order.
    pub fn reconcile(&mut self, roster: Vec<PlayerState>) -> (announced: Vec<String>)
        requires
            old(self).wf(),
        ensures
            final(self).wf(),
            final(self)@ == old(self)@.reconciled(views(roster@)),
            lines(announced@) == old(self)@.announced(views(roster@)),
            final(self)@.local_id == old(self)@.local_id,
            final(self)@.log.len() <= MAX_JOIN_MESSAGES,
            final(self)@.local_id.is_some() ==> !final(self)@.others.dom().contains(
                final(self)@.local_id.unwrap(),
            ),
    {
        let local: String = match &self.local_player_id {
            Some(l) => l.clone(),
            None => {
                let nothing: Vec<String> = Vec::new();
                assert(lines(nothing@) =~= Seq::<Seq<char>>::empty());
                return nothing;
            },
        };
        let ghost rv = views(roster@);
        let ghost prev = old(self)@.others.dom();
        let ghost log0 = lines(old(self).join_log@);
        let ghost cap = MAX_JOIN_MESSAGES as nat;
        let mut fresh: Vec<PlayerState> = Vec::new();
        let mut announced: Vec<String> = Vec::new();
        let mut i: usize = 0;
        proof {
            assert(lines(announced@) =~= announcements(joined(rv.take(0), local@, prev)));
            assert(views(fresh@) =~= Seq::<PlayerView>::empty());
            assert(rv.take(0) =~= Seq::<PlayerView>::empty());
            assert(log0 + announcements(joined(rv.take(0), local@, prev)) =~= log0);
        }
        while i < roster.len()
            invariant
                i <= roster.len(),
                rv == views(roster@),
                prev == old(self)@.others.dom(),
                log0 == lines(old(self).join_log@),
                log0.len() <= cap,
                cap == MAX_JOIN_MESSAGES,
                self.local_player_id == old(self).local_player_id,
                self.other_players == old(self).other_players,
                distinct_ids(views(fresh@)),
                gather(views(fresh@), None) =~= gather(rv.take(i as int), Some(local@)),
                lines(self.join_log@) == keep_last(
                    log0 + announcements(joined(rv.take(i as int), local@, prev)),
                    cap,
                ),
                lines(announced@) == announcements(joined(rv.take(i as int), local@, prev)),
            decreases roster.len() - i,
        {
            let entry = &roster[i];
            let ghost before = rv.take(i as int);
            let ghost after = rv.take(i as int + 1);
            let ghost ids = joined(before, local@, prev);
            proof {
                assert(after.drop_last() =~= before);
                assert(after.last() == entry@);
                lemma_gather_domain(before, Some(local@));
                lemma_gather_domain(views(fresh@), None);
                lemma_gather_domain(views(old(self).other_players@), None);
                lemma_keep_last_compose(log0 + announcements(ids), Seq::<Seq<char>>::empty(), cap);
            }
            if entry.id != local {
                match find_id(&fresh, &entry.id) {
                    Some(j) => {
                        proof {
                            assert(views(fresh@)[j as int].id == entry.id@);
                            assert(gather(views(fresh@), None).dom().contains(entry.id@));
                            assert(gather(before, Some(local@)).dom().contains(entry.id@));
                            assert(has_id(before, entry.id@));
                            assert(joined(after, local@, prev) == ids);
                            lemma_gather_update(views(fresh@), j as int, entry@);
                        }
                        let ghost was = fresh@;
                        fresh.set(j, entry.clone());
                        proof {
                            assert(views(fresh@) =~= views(was).update(j as int, entry@));
                        }
                    },
                    None => {
                        proof {
                            assert(!gather(views(fresh@), None).dom().contains(entry.id@));
                            assert(!gather(before, Some(local@)).dom().contains(entry.id@));
                            assert(!has_id(before, entry.id@));
                        }
                        match find_id(&self.other_players, &entry.id) {
                            None => {
                                proof {
                                    assert(!gather(
                                        views(old(self).other_players@),
                                        None,
                                    ).dom().contains(entry.id@));
                                    assert(!prev.contains(entry.id@));
                                    assert(joined(after, local@, prev) == ids.push(entry.id@));
                                }
                                let line = join_message(&entry.id);
                                let ghost queue = self.join_log@;
                                let ghost told = announced@;
                                announced.push(line.clone());
                                self.join_log.push_back(line);
                                proof {
                                    assert(lines(announced@) =~= lines(told).push(
                                        join_line(entry.id@),
                                    ));
                                    assert(announcements(ids.push(entry.id@)) =~= announcements(
                                        ids,
                                    ).push(join_line(entry.id@)));
                                    assert(lines(self.join_log@) =~= lines(queue).push(
                                        join_line(entry.id@),
                                    ));
                                    lemma_keep_last_push(
                                        log0 + announcements(ids),
                                        join_line(entry.id@),
                                        cap,
                                    );
                                    assert((log0 + announcements(ids)).push(join_line(entry.id@))
                                        =~= log0 + announcements(ids.push(entry.id@)));
                                }
                                if self.join_log.len() > MAX_JOIN_MESSAGES {
                                    let ghost full = self.join_log@;
                                    let _ = self.join_log.pop_front();
                                    proof {
                                        assert(lines(self.join_log@) =~= lines(full).subrange(
                                            1,
                                            full.len() as int,
                                        ));
                                    }
                                }
                            },
                            Some(k) => {
                                proof {
                                    assert(views(old(self).other_players@)[k as int].id
                                        == entry.id@);
                                    assert(gather(
                                        views(old(self).other_players@),
                                        None,
                                    ).dom().contains(entry.id@));
                                    assert(prev.contains(entry.id@));
                                    assert(joined(after, local@, prev) == ids);
                                }
                            },
                        }
                        proof {
                            lemma_gather_push(views(fresh@), entry@);
                        }
                        let ghost was = fresh@;
                        fresh.push(entry.clone());
                        proof {
                            assert(views(fresh@) =~= views(was).push(entry@));
                        }
                    },
                }
            } else {
                proof {
                    assert(joined(after, local@, prev) == ids);
                }
            }
            i += 1;
        }
        proof {
            assert(rv.take(roster.len() as int) =~= rv);
            lemma_gather_skips(rv, local@);
            lemma_gather_keys(rv, Some(local@));
        }
        self.other_players = fresh;
        proof {
            assert(self@.others =~= gather(rv, Some(local@)));
        }
        announced
    }

    /// Drains the rosters that arrived since the last frame, oldest first:
    /// only the most recent one is applied, the earlier ones are
    /// superseded. Returns the join notifications that this gave rise to.
    pub fn apply_pending(&mut self, pending: Vec<Vec<PlayerState>>) -> (announced: Vec<String>)
        requires
            old(self).wf(),
        ensures
            final(self).wf(),
            final(self)@ == old(self)@.drained(rosters(pending@)),
            lines(announced@) == old(self)@.drained_announced(rosters(pending@)),
            final(self)@.local_id == old(self)@.local_id,
    {
        let mut pending = pending;
        let ghost all = pending@;
        match pending.pop() {
            Some(latest) => {
                assert(rosters(all).last() == views(latest@));
                self.reconcile(latest)
            },
            None => {
                let nothing: Vec<String> = Vec::new();
                assert(lines(nothing@) =~= Seq::<Seq<char>>::empty());
                nothing
            },
        }
    }

    /// The snapshot to send to the server for this frame: ours, under the
    /// local id, or nothing while that id is unknown.
    pub fn outbound_state(&self, position: Vec3, rotation: Vec3) -> (r: Option<PlayerState>)
        ensures
            match self@.local_id {
                Some(l) => r.is_some() && r.unwrap()@ == (PlayerView { id: l, position, rotation }),
                None => r.is_none(),
            },
    {
        match &self.local_player_id {
            Some(l) => Some(PlayerState { id: l.clone(), position, rotation }),
            None => None,
        }
    }
}

/// Applying a roster never files the local id among the others, whatever
/// the roster holds.
pub proof fn lemma_local_id_stays_out(w: WorldView, r: Seq<PlayerView>)
    requires
        w.wf(),
        w.local_id.is_some(),
    ensures
        !w.reconciled(r).others.dom().contains(w.local_id.unwrap()),
        w.reconciled(r).local_id == w.local_id,
{
    lemma_gather_skips(r, w.local_id.unwrap());
}

/// Applying a roster keeps the state well formed: the log stays within its
/// capacity and the local id stays out of the others.
pub proof fn lemma_reconciled_wf(w: WorldView, r: Seq<PlayerView>)
    requires
        w.wf(),
    ensures
        w.reconciled(r).wf(),
        w.reconciled(r).log.len() <= MAX_JOIN_MESSAGES,
{
    match w.local_id {
        Some(l) => {
            lemma_gather_skips(r, l);
            lemma_gather_keys(r, Some(l));
        },
        None => {},
    }
}

/// However many rosters are applied, and however many players each of
/// them introduces, the state stays well formed, the local id stays what
/// it was, and the log holds the most recent lines of everything that was
/// ever logged.
pub proof fn lemma_log_holds_latest(w: WorldView, rs: Seq<Seq<PlayerView>>)
    requires
        w.wf(),
    ensures
        w.replayed(rs).wf(),
        w.replayed(rs).local_id == w.local_id,
        w.replayed(rs).log == keep_last(w.log + w.history(rs), MAX_JOIN_MESSAGES as nat),
        w.replayed(rs).log.len() <= MAX_JOIN_MESSAGES,
    decreases rs.len(),
{
    let cap = MAX_JOIN_MESSAGES as nat;
    if rs.len() == 0 {
        assert(w.log + w.history(rs) =~= w.log);
    } else {
        let before = w.replayed(rs.drop_last());
        let past = w.history(rs.drop_last());
        let now = before.announced(rs.last());
        lemma_log_holds_latest(w, rs.drop_last());
        lemma_reconciled_wf(before, rs.last());
        lemma_keep_last_compose(w.log + past, now, cap);
        assert(w.log + past + now =~= w.log + (past + now));
        if before.local_id.is_none() {
            assert(before.log + now =~= before.log);
        }
    }
}

/// The local id is final: once it is known, neither another offer nor any
/// roster changes it.
pub proof fn lemma_identity_is_final(w: WorldView, id: Seq<char>, r: Seq<PlayerView>)
    requires
        w.local_id.is_some(),
    ensures
        w.identified(id) == w,
        w.reconciled(r).local_id == w.local_id,
        w.reconciled(r).identified(id).local_id == w.local_id,
{
}

/// Taking an id keeps the state well formed, and a second offer is
/// ignored.
pub proof fn lemma_identified_wf(w: WorldView, id: Seq<char>, again: Seq<char>)
    requires
        w.wf(),
    ensures
        w.identified(id).wf(),
        w.identified(id).local_id.is_some(),
        w.identified(id).identified(again) == w.identified(id),
{
}

} // verus!
