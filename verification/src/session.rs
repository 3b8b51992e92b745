//! The decisions of a network session.
//!
//! The connection itself lives outside this crate. Whoever drives it hands
//! each thing that happened to [`Inbound::step`] and carries out the
//! [`Reaction`] that comes back; [`Session`] keeps track of which of the
//! two activities are still running.

use vstd::prelude::*;
use crate::identity::{deduce, deduced, Deduction};
use crate::roster::{views, PlayerState, PlayerView};
use crate::world::{SharedWorldState, WorldView};

verus! {

/// Something that happened on the inbound side.
pub enum Event {
    /// A text message that decoded as a roster.
    Roster(Vec<PlayerState>),
    /// A text message that did not decode.
    Malformed,
    /// The server closed the connection.
    Closed,
    /// Reading from the connection failed.
    ReadFailed,
    /// A message of a kind that carries no roster.
    Other,
    /// The stream of messages ended.
    Ended,
    /// The frame loop no longer takes the rosters relayed to it.
    ReceiverGone,
}

/// The diagnostic that goes with a reaction.
#[derive(Clone, Copy, Debug, PartialEq, Eq, Structural)]
pub enum Notice {
    /// Nothing to report.
    Quiet,
    /// The local identity was just deduced.
    IdentityResolved,
    /// A roster arrived and the local identity is still unknown.
    IdentityUnresolved,
    /// A message was dropped because it did not decode.
    DecodeError,
    /// The server closed the connection.
    ConnectionClosed,
    /// Reading failed.
    ReadError,
    /// The stream ended.
    StreamEnded,
    /// The other end of a queue is gone.
    ChannelClosed,
    /// A state could not be transmitted.
    TransmitError,
}

/// What to do about an event.
pub struct Reaction {
    /// The branch of the decision tree that resolved the identity on this
    /// event, with the roster entry it chose.
    pub deduction: Option<Deduction>,
    /// The id to publish on the identity channel.
    pub publish: Option<String>,
    /// Whether to forward the event's roster to the frame loop.
    pub relay: bool,
    /// The diagnostic to emit.
    pub notice: Notice,
    /// Whether the inbound activity ends here.
    pub stop: bool,
}

impl Reaction {
    /// A reaction that publishes and relays nothing.
    pub open spec fn plain(self, notice: Notice, stop: bool) -> bool {
        &&& self.deduction.is_none()
        &&& self.publish.is_none()
        &&& !self.relay
        &&& self.notice == notice
        &&& self.stop == stop
    }
}

/// State of the inbound activity.
pub struct Inbound {
    /// Set once the local identity is known to this activity.
    pub identity_resolved: bool,
}

impl Inbound {
    pub fn new() -> (s: Inbound)
        ensures
            !s.identity_resolved,
    {
        Inbound { identity_resolved: false }
    }

    /// Handles a decoded roster. While the identity is unknown the decision
    /// tree runs on the roster; where it resolves, the id is recorded in
    /// `world` and published. The roster is relayed exactly when the
    /// identity is known afterwards. A known identity never changes.
    pub fn on_roster(&mut self, world: &mut SharedWorldState, roster: &Vec<PlayerState>) -> (out:
        Reaction)
        requires
            old(world).wf(),
        ensures
            final(world).wf(),
            roster_handled(
                old(self).identity_resolved,
                old(world)@,
                views(roster@),
                final(self).identity_resolved,
                final(world)@,
                out,
            ),
            old(world)@.local_id.is_some() ==> final(world)@ == old(world)@,
    {
        if self.identity_resolved || world.local_player_id().is_some() {
            self.identity_resolved = true;
            return Reaction {
                deduction: None,
                publish: None,
                relay: true,
                notice: Notice::Quiet,
                stop: false,
            };
        }
        match deduce(roster, world) {
            Some(d) => {
                assert(views(roster@)[d.index as int] == roster[d.index as int]@);
                let id = roster[d.index].id.clone();
                let _ = world.set_local_id(roster[d.index].id.clone());
                self.identity_resolved = true;
                Reaction {
                    deduction: Some(d),
                    publish: Some(id),
                    relay: true,
                    notice: Notice::IdentityResolved,
                    stop: false,
                }
            },
            None => Reaction {
                deduction: None,
                publish: None,
                relay: false,
                notice: Notice::IdentityUnresolved,
                stop: false,
            },
        }
    }

    /// Decides what to do about `event`. Only a roster can touch the state.
    /// A message that does not decode is reported and dropped; a closed
    /// connection, a failed read, the end of the stream and a vanished
    /// receiver end the activity.
    pub fn step(&mut self, world: &mut SharedWorldState, event: &Event) -> (out: Reaction)
        requires
            old(world).wf(),
        ensures
            final(world).wf(),
            old(world)@.local_id.is_some() ==> final(world)@.local_id == old(world)@.local_id,
            match *event {
                Event::Roster(roster) => roster_handled(
                    old(self).identity_resolved,
                    old(world)@,
                    views(roster@),
                    final(self).identity_resolved,
                    final(world)@,
                    out,
                ),
                Event::Malformed => unchanged(old(self), final(self), old(world), final(world))
                    && out.plain(Notice::DecodeError, false),
                Event::Closed => unchanged(old(self), final(self), old(world), final(world))
                    && out.plain(Notice::ConnectionClosed, true),
                Event::ReadFailed => unchanged(old(self), final(self), old(world), final(world))
                    && out.plain(Notice::ReadError, true),
                Event::Other => unchanged(old(self), final(self), old(world), final(world))
                    && out.plain(Notice::Quiet, false),
                Event::Ended => unchanged(old(self), final(self), old(world), final(world))
                    && out.plain(Notice::StreamEnded, true),
                Event::ReceiverGone => unchanged(old(self), final(self), old(world), final(world))
                    && out.plain(Notice::ChannelClosed, true),
            },
    {
        match event {
            Event::Roster(roster) => self.on_roster(world, roster),
            Event::Malformed => quiet(Notice::DecodeError, false),
            Event::Closed => quiet(Notice::ConnectionClosed, true),
            Event::ReadFailed => quiet(Notice::ReadError, true),
            Event::Other => quiet(Notice::Quiet, false),
            Event::Ended => quiet(Notice::StreamEnded, true),
            Event::ReceiverGone => quiet(Notice::ChannelClosed, true),
        }
    }
}

/// What handling the roster `r` amounts to, from the activity's flag and
/// the shared state before to the flag, the state and the reaction after.
///
/// With the identity known already, nothing moves and the roster is
/// relayed. Otherwise the decision tree runs against the ids recorded for
/// other players: where it resolves, the chosen entry's id becomes the local
/// id and is published, and the roster is relayed; where it does not,
/// nothing moves and the roster is held back.
pub open spec fn roster_handled(
    was_resolved: bool,
    before: WorldView,
    r: Seq<PlayerView>,
    now_resolved: bool,
    after: WorldView,
    out: Reaction,
) -> bool {
    &&& !out.stop
    &&& out.relay == now_resolved
    &&& if was_resolved || before.local_id.is_some() {
        &&& after == before
        &&& now_resolved
        &&& out.deduction.is_none()
        &&& out.publish.is_none()
        &&& out.notice == Notice::Quiet
    } else {
        &&& deduced(r, before.others.dom(), out.deduction)
        &&& match out.deduction {
            Some(d) => {
                &&& d.index < r.len()
                &&& after == before.identified(r[d.index as int].id)
                &&& after.local_id == Some(r[d.index as int].id)
                &&& now_resolved
                &&& out.publish.is_some()
                &&& out.publish.unwrap()@ == r[d.index as int].id
                &&& out.notice == Notice::IdentityResolved
            },
            None => {
                &&& after == before
                &&& !now_resolved
                &&& out.publish.is_none()
                &&& out.notice == Notice::IdentityUnresolved
            },
        }
    }
}

/// Neither the activity's state nor the shared state moved.
pub open spec fn unchanged(
    before: &Inbound,
    after: &Inbound,
    world_before: &SharedWorldState,
    world_after: &SharedWorldState,
) -> bool {
    before.identity_resolved == after.identity_resolved && world_before@ == world_after@
}

/// A reaction that only reports and, perhaps, stops.
fn quiet(notice: Notice, stop: bool) -> (out: Reaction)
    ensures
        out.plain(notice, stop),
{
    Reaction { deduction: None, publish: None, relay: false, notice, stop }
}

/// One of the two activities of a session.
#[derive(Clone, Copy, Debug, PartialEq, Eq, Structural)]
pub enum Activity {
    /// Sends the local player's state to the server.
    Outbound,
    /// Receives rosters from the server.
    Inbound,
}

/// Which activities of a session are still running.
#[derive(Clone, Copy, Debug, PartialEq, Eq, Structural)]
pub struct Session {
    pub outbound_running: bool,
    pub inbound_running: bool,
}

impl Session {
    /// The session over, with both of its activities ended.
    pub open spec fn over(self) -> bool {
        !self.outbound_running && !self.inbound_running
    }

    /// A session after the attempt to connect: both activities run where
    /// the connection was made, none where it was refused.
    pub fn open(connected: bool) -> (s: Session)
        ensures
            s.outbound_running == connected,
            s.inbound_running == connected,
    {
        Session { outbound_running: connected, inbound_running: connected }
    }

    /// Records that `activity` ended. The other one is not affected.
    pub fn end(&mut self, activity: Activity)
        ensures
            final(self).outbound_running == (old(self).outbound_running && activity
                != Activity::Outbound),
            final(self).inbound_running == (old(self).inbound_running && activity
                != Activity::Inbound),
    {
        match activity {
            Activity::Outbound => {
                self.outbound_running = false;
            },
            Activity::Inbound => {
                self.inbound_running = false;
            },
        }
    }

    /// Records the outcome of one transmission: a failure ends the outbound
    /// activity, and nothing is sent again. Returns the diagnostic.
    pub fn after_send(&mut self, delivered: bool) -> (notice: Notice)
        ensures
            final(self).outbound_running == (old(self).outbound_running && delivered),
            final(self).inbound_running == old(self).inbound_running,
            notice == if delivered {
                Notice::Quiet
            } else {
                Notice::TransmitError
            },
    {
        if delivered {
            Notice::Quiet
        } else {
            self.outbound_running = false;
            Notice::TransmitError
        }
    }

    /// Whether the session is over: it is when both activities have ended.
    pub fn is_over(&self) -> (r: bool)
        ensures
            r == self.over(),
    {
        !self.outbound_running && !self.inbound_running
    }
}

} // verus!
