//! The link: connecting, losing it, arming tracking, and what the server says
//! about itself.

use vstd::prelude::*;

use crate::command::{nothing, only, Command, CommandView};
use crate::state::session::{State, StateView};
use crate::state::status::{
    Link, LinkView, Liveness, ReadOnlyReason, ServerCondition, Tracking,
};
use crate::update::reads::refetch;
use crate::update::Outcome;

verus! {

impl LinkView {
    /// The link with tracking in another state, if it is up.
    pub open spec fn with_tracking(self, to: Tracking) -> LinkView {
        match self {
            LinkView::Up { version, .. } => LinkView::Up { version, tracking: to },
            _ => self,
        }
    }

    /// Tracking accepted by the server, where it can be.
    pub open spec fn armed(self) -> LinkView {
        match self {
            LinkView::Up { tracking, .. } => if tracking == Tracking::Unsupported {
                self
            } else {
                self.with_tracking(Tracking::Armed)
            },
            _ => self,
        }
    }

    /// The arming used up by a push.
    pub open spec fn consumed(self) -> LinkView {
        match self {
            LinkView::Up { tracking, .. } => if tracking == Tracking::Armed {
                self.with_tracking(Tracking::Consumed)
            } else {
                self
            },
            _ => self,
        }
    }
}

impl StateView {
    pub open spec fn with_link(self, link: LinkView) -> StateView {
        StateView { link, ..self }
    }

    /// A connection made. It is not live yet: only an accepted arming makes it
    /// so, and a read asks for one where tracking is supported.
    pub open spec fn connected(self, version: Seq<char>, tracking_supported: bool) -> Outcome {
        let up = self.with_link(
            LinkView::Up {
                version,
                tracking: if tracking_supported {
                    Tracking::Available
                } else {
                    Tracking::Unsupported
                },
            },
        );
        if tracking_supported {
            up.refetched()
        } else {
            up.unchanged()
        }
    }

    /// The connection lost: no read in flight will be answered.
    pub open spec fn disconnected(self) -> Outcome {
        (
            StateView {
                open_pending: None,
                link: LinkView::Reconnecting { attempt: 1, retry_in_ms: None },
                ..self
            },
            seq![CommandView::Reconnect { after_ms: 0 }],
        )
    }

    pub open spec fn reconnecting(self, attempt: u32, retry_in_ms: u64) -> Outcome {
        (
            self.with_link(LinkView::Reconnecting { attempt, retry_in_ms: Some(retry_in_ms) }),
            seq![CommandView::Reconnect { after_ms: retry_in_ms }],
        )
    }

    /// The guard against writes after the server spoke. What it says outranks
    /// everything; where it says nothing, a replica's guard falls back to that
    /// of the environment, and any other stays.
    pub open spec fn guard_after(self, told: Option<ReadOnlyReason>) -> Option<ReadOnlyReason> {
        match told {
            Some(reason) => Some(reason),
            None => if self.read_only == Some(ReadOnlyReason::Replica) {
                if self.connection.environment.is_guarded() {
                    Some(ReadOnlyReason::Environment)
                } else {
                    None
                }
            } else {
                self.read_only
            },
        }
    }
}

pub fn connected(state: State, version: String, tracking_supported: bool) -> (r: (
    State,
    Vec<Command>,
))
    ensures
        r.0@ == state@.connected(version@, tracking_supported).0,
        Command::list(r.1@) == state@.connected(version@, tracking_supported).1,
{
    let mut next = state;
    next.link = Link::Up {
        version,
        tracking: if tracking_supported {
            Tracking::Available
        } else {
            Tracking::Unsupported
        },
    };
    let commands = if tracking_supported {
        refetch(&mut next)
    } else {
        nothing()
    };
    (next, commands)
}

pub fn connection_lost(state: State) -> (r: (State, Vec<Command>))
    ensures
        r.0@ == state@.disconnected().0,
        Command::list(r.1@) == state@.disconnected().1,
{
    let mut next = state;
    next.open_pending = None;
    next.link = Link::Reconnecting { attempt: 1, retry_in_ms: None };
    (next, only(Command::Reconnect { after_ms: 0 }))
}

pub fn reconnect_scheduled(state: State, attempt: u32, retry_in_ms: u64) -> (r: (
    State,
    Vec<Command>,
))
    ensures
        r.0@ == state@.reconnecting(attempt, retry_in_ms).0,
        Command::list(r.1@) == state@.reconnecting(attempt, retry_in_ms).1,
{
    let mut next = state;
    next.link = Link::Reconnecting { attempt, retry_in_ms: Some(retry_in_ms) };
    (next, only(Command::Reconnect { after_ms: retry_in_ms }))
}

pub fn tracking_armed(state: State) -> (r: (State, Vec<Command>))
    ensures
        r.0@ == state@.with_link(state@.link.armed()),
        Command::list(r.1@) == Seq::<CommandView>::empty(),
{
    let mut next = state;
    if let Link::Up { tracking, .. } = &mut next.link {
        if *tracking != Tracking::Unsupported {
            *tracking = Tracking::Armed;
        }
    }
    (next, nothing())
}

/// A push says that the Open key changed: reading it again is what arms
/// tracking again.
pub fn invalidated(state: State) -> (r: (State, Vec<Command>))
    ensures
        r.0@ == state@.with_link(state@.link.consumed()).refetched().0,
        Command::list(r.1@) == state@.with_link(state@.link.consumed()).refetched().1,
{
    let mut next = state;
    if let Link::Up { tracking, .. } = &mut next.link {
        if *tracking == Tracking::Armed {
            *tracking = Tracking::Consumed;
        }
    }
    let commands = refetch(&mut next);
    (next, commands)
}

pub fn server_state(
    state: State,
    read_only: Option<ReadOnlyReason>,
    condition: Option<ServerCondition>,
) -> (r: (State, Vec<Command>))
    ensures
        r.0@ == (StateView { read_only: state@.guard_after(read_only), condition, ..state@ }),
        Command::list(r.1@) == Seq::<CommandView>::empty(),
{
    let mut next = state;
    next.read_only = match (read_only, next.read_only) {
        (Some(reason), _) => Some(reason),
        (None, Some(ReadOnlyReason::Replica)) => {
            if next.connection.environment.read_only_by_default() {
                Some(ReadOnlyReason::Environment)
            } else {
                None
            }
        },
        (None, existing) => existing,
    };
    next.condition = condition;
    (next, nothing())
}

/// A connection, first or regained, is never live by itself. Where tracking is
/// supported it becomes live when the server accepts the arming, and where it
/// is not it never does.
pub proof fn a_connection_is_live_only_once_armed(
    s: StateView,
    version: Seq<char>,
    tracking_supported: bool,
)
    ensures
        s.connected(version, tracking_supported).0.link.liveness() == Liveness::Manual,
        (s.connected(version, tracking_supported).0.link.armed().liveness() == Liveness::Live)
            == tracking_supported,
{
}

/// Losing the connection drops every claim to be live, and no arming that
/// arrives late brings it back.
pub proof fn a_lost_connection_is_not_live(s: StateView, attempt: u32, retry_in_ms: u64)
    ensures
        s.disconnected().0.link.liveness() == Liveness::Disconnected,
        s.disconnected().0.link.armed().liveness() == Liveness::Disconnected,
        s.reconnecting(attempt, retry_in_ms).0.link.liveness() == Liveness::Disconnected,
        s.reconnecting(attempt, retry_in_ms).0.link.armed().liveness() == Liveness::Disconnected,
{
}

/// A push uses the arming up, and where a key is open it leads to exactly one
/// read, which arms tracking again if the link can.
pub proof fn a_push_leads_to_a_read_that_arms(s: StateView)
    requires
        s.link.liveness() == Liveness::Live,
        s.open is Some,
    ensures
        ({
            let (after, commands) = s.with_link(s.link.consumed()).refetched();
            &&& commands == seq![
                CommandView::ReadKey {
                    key: s.open->0.name,
                    index: s.open->0.index,
                    token: after.read_token,
                    arm: true,
                },
            ]
            &&& !(after.link matches LinkView::Up { tracking: Tracking::Armed, .. })
            &&& after.link.armed().liveness() == Liveness::Live
        }),
{
}

/// A replica's guard stays for as long as the server reports one, and the server
/// never takes a guard away that the reader put up.
pub proof fn the_server_does_not_lift_the_readers_guard(s: StateView)
    ensures
        s.guard_after(Some(ReadOnlyReason::Replica)) == Some(ReadOnlyReason::Replica),
        s.read_only == Some(ReadOnlyReason::User) ==> s.guard_after(None) == s.read_only,
        s.read_only == Some(ReadOnlyReason::Environment) ==> s.guard_after(None) == s.read_only,
{
}

} // verus!
