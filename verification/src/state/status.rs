//! The facts the chrome is drawn from: the link, the traversal, the guard
//! against writes, and where this session is connected to.

use vstd::prelude::*;

use crate::command::ReadToken;
use crate::key::KeyName;
use crate::layout;
use crate::text;

verus! {

/// How far the server's change tracking goes on this connection.
#[derive(Clone, Copy, Debug, PartialEq, Eq, Structural)]
pub enum Tracking {
    Unsupported,
    Available,
    Armed,
    /// A push used the arming up; the read that answers it arms again.
    Consumed,
}

#[derive(Clone, Debug, PartialEq, Eq)]
pub enum Link {
    Connecting,
    Up { version: String, tracking: Tracking },
    Reconnecting { attempt: u32, retry_in_ms: Option<u64> },
}

#[verifier::ext_equal]
pub enum LinkView {
    Connecting,
    Up { version: Seq<char>, tracking: Tracking },
    Reconnecting { attempt: u32, retry_in_ms: Option<u64> },
}

impl View for Link {
    type V = LinkView;

    open spec fn view(&self) -> LinkView {
        match self {
            Link::Connecting => LinkView::Connecting,
            Link::Up { version, tracking } => LinkView::Up {
                version: version@,
                tracking: *tracking,
            },
            Link::Reconnecting { attempt, retry_in_ms } => LinkView::Reconnecting {
                attempt: *attempt,
                retry_in_ms: *retry_in_ms,
            },
        }
    }
}

/// Whether what is on screen follows the server by itself.
#[derive(Clone, Copy, Debug, PartialEq, Eq, Structural)]
pub enum Liveness {
    Live,
    Manual,
    Disconnected,
}

impl LinkView {
    /// Live is claimed only where tracking is armed, or was and its push is
    /// being answered.
    pub open spec fn liveness(self) -> Liveness {
        match self {
            LinkView::Up { tracking, .. } => match tracking {
                Tracking::Armed => Liveness::Live,
                Tracking::Consumed => Liveness::Live,
                Tracking::Available => Liveness::Manual,
                Tracking::Unsupported => Liveness::Manual,
            },
            LinkView::Connecting => Liveness::Disconnected,
            LinkView::Reconnecting { .. } => Liveness::Disconnected,
        }
    }

    /// Whether a read over this link arms tracking.
    pub open spec fn arms(self) -> bool {
        match self {
            LinkView::Up { tracking, .. } => tracking != Tracking::Unsupported,
            _ => false,
        }
    }
}

impl Link {
    pub fn liveness(&self) -> (liveness: Liveness)
        ensures
            liveness == self@.liveness(),
    {
        match self {
            Link::Up { tracking, .. } => match tracking {
                Tracking::Armed => Liveness::Live,
                Tracking::Consumed => Liveness::Live,
                Tracking::Available => Liveness::Manual,
                Tracking::Unsupported => Liveness::Manual,
            },
            Link::Connecting => Liveness::Disconnected,
            Link::Reconnecting { .. } => Liveness::Disconnected,
        }
    }

    /// Whether a read over this link arms tracking.
    pub fn arms(&self) -> (arms: bool)
        ensures
            arms == self@.arms(),
    {
        match self {
            Link::Up { tracking, .. } => *tracking != Tracking::Unsupported,
            _ => false,
        }
    }
}

/// How the traversal of the keyspace stands.
#[derive(Clone, Debug, PartialEq, Eq)]
pub enum ScanState {
    Idle,
    Running { scanned: u64, estimated_total: u64 },
    Capped { at: usize },
    Complete { total: u64 },
    Cancelled { scanned: u64 },
    Failed { error: String },
}

#[verifier::ext_equal]
pub enum ScanView {
    Idle,
    Running { scanned: u64, estimated_total: u64 },
    Capped { at: usize },
    Complete { total: u64 },
    Cancelled { scanned: u64 },
    Failed { error: Seq<char> },
}

impl View for ScanState {
    type V = ScanView;

    open spec fn view(&self) -> ScanView {
        match self {
            ScanState::Idle => ScanView::Idle,
            ScanState::Running { scanned, estimated_total } => ScanView::Running {
                scanned: *scanned,
                estimated_total: *estimated_total,
            },
            ScanState::Capped { at } => ScanView::Capped { at: *at },
            ScanState::Complete { total } => ScanView::Complete { total: *total },
            ScanState::Cancelled { scanned } => ScanView::Cancelled { scanned: *scanned },
            ScanState::Failed { error } => ScanView::Failed { error: error@ },
        }
    }
}

impl ScanView {
    /// The traversal in words.
    pub open spec fn readout(self) -> Seq<char> {
        match self {
            ScanView::Idle => Seq::empty(),
            ScanView::Running { scanned, estimated_total } => "scanning "@ + text::grouped(
                scanned as nat,
            ) + " of ~"@ + text::grouped(estimated_total as nat),
            ScanView::Capped { at } => "stopped at "@ + text::grouped(at as nat)
                + " keys — narrow the filter"@,
            ScanView::Complete { total } => text::grouped(total as nat) + " keys"@,
            ScanView::Cancelled { scanned } => "cancelled at "@ + text::grouped(scanned as nat)
                + " keys"@,
            ScanView::Failed { error } => "scan failed: "@ + error,
        }
    }
}

impl ScanState {
    pub fn is_running(&self) -> (running: bool)
        ensures
            running == (self@ is Running),
    {
        match self {
            ScanState::Running { .. } => true,
            _ => false,
        }
    }

    pub fn is_capped(&self) -> (capped: bool)
        ensures
            capped == (self@ is Capped),
    {
        match self {
            ScanState::Capped { .. } => true,
            _ => false,
        }
    }

    /// The traversal in words.
    pub fn readout(&self) -> (words: String)
        ensures
            words@ == self@.readout(),
    {
        match self {
            ScanState::Idle => String::new(),
            ScanState::Running { scanned, estimated_total } => {
                let mut words = text::owned("scanning ");
                text::push_grouped(&mut words, *scanned);
                words.append(" of ~");
                text::push_grouped(&mut words, *estimated_total);
                words
            },
            ScanState::Capped { at } => {
                let mut words = text::owned("stopped at ");
                text::push_grouped(&mut words, *at as u64);
                words.append(" keys — narrow the filter");
                words
            },
            ScanState::Complete { total } => {
                let mut words = String::new();
                text::push_grouped(&mut words, *total);
                words.append(" keys");
                assert(words@ =~= text::grouped(*total as nat) + " keys"@);
                words
            },
            ScanState::Cancelled { scanned } => {
                let mut words = text::owned("cancelled at ");
                text::push_grouped(&mut words, *scanned);
                words.append(" keys");
                words
            },
            ScanState::Failed { error } => {
                let mut words = text::owned("scan failed: ");
                words.append(error.as_str());
                words
            },
        }
    }
}

/// Why this session does not write.
#[derive(Clone, Copy, Debug, PartialEq, Eq, Structural)]
pub enum ReadOnlyReason {
    Environment,
    Replica,
    User,
}

impl ReadOnlyReason {
    pub open spec fn name(self) -> Seq<char> {
        match self {
            ReadOnlyReason::Environment => "environment"@,
            ReadOnlyReason::Replica => "replica"@,
            ReadOnlyReason::User => "user"@,
        }
    }

    pub fn label(self) -> (label: &'static str)
        ensures
            label@ == self.name(),
    {
        match self {
            ReadOnlyReason::Environment => "environment",
            ReadOnlyReason::Replica => "replica",
            ReadOnlyReason::User => "user",
        }
    }
}

/// A condition in which the server refuses work.
#[derive(Clone, Copy, Debug, PartialEq, Eq, Structural)]
pub enum ServerCondition {
    Oom,
    Misconf,
    Loading { percent: u8 },
}

impl ServerCondition {
    pub open spec fn words(self) -> Seq<char> {
        match self {
            ServerCondition::Oom => "out of memory · writes rejected"@,
            ServerCondition::Misconf => "persistence failing · writes rejected"@,
            ServerCondition::Loading { percent } => "loading "@ + text::decimal(percent as nat)
                + "%"@,
        }
    }

    pub fn readout(self) -> (words: String)
        ensures
            words@ == self.words(),
    {
        match self {
            ServerCondition::Oom => text::owned("out of memory · writes rejected"),
            ServerCondition::Misconf => text::owned("persistence failing · writes rejected"),
            ServerCondition::Loading { percent } => {
                let mut words = text::owned("loading ");
                text::push_decimal(&mut words, percent as u64);
                words.append("%");
                words
            },
        }
    }
}

/// What kind of server this is.
#[derive(Clone, Copy, Debug, PartialEq, Eq, Structural)]
pub enum Environment {
    Local,
    Staging,
    Prod,
    Unknown,
}

impl Environment {
    /// Production is guarded, and so is what might be production.
    pub open spec fn is_guarded(self) -> bool {
        self == Environment::Prod || self == Environment::Unknown
    }

    pub fn read_only_by_default(self) -> (guarded: bool)
        ensures
            guarded == self.is_guarded(),
    {
        match self {
            Environment::Prod => true,
            Environment::Unknown => true,
            Environment::Local => false,
            Environment::Staging => false,
        }
    }
}

/// Where the target came from.
#[derive(Clone, Debug, PartialEq, Eq)]
pub enum Source {
    Default,
    Url,
    Flags,
    Profile(String),
}

impl Source {
    pub open spec fn words(self) -> Seq<char> {
        match self {
            Source::Default => "from default"@,
            Source::Url => "from url"@,
            Source::Flags => "from flags"@,
            Source::Profile(name) => "from profile "@ + name@,
        }
    }

    pub fn label(&self) -> (label: String)
        ensures
            label@ == self.words(),
    {
        match self {
            Source::Default => text::owned("from default"),
            Source::Url => text::owned("from url"),
            Source::Flags => text::owned("from flags"),
            Source::Profile(name) => {
                let mut label = text::owned("from profile ");
                label.append(name.as_str());
                label
            },
        }
    }
}

/// What this session is connected to.
#[derive(Clone, Debug, PartialEq, Eq)]
pub struct Connection {
    /// Host, port and database, as in `cache-01:6379/0`.
    pub target: String,
    pub environment: Environment,
    pub source: Source,
}

#[verifier::ext_equal]
pub struct ConnectionView {
    pub target: Seq<char>,
    pub environment: Environment,
    pub source: Seq<char>,
}

impl View for Connection {
    type V = ConnectionView;

    open spec fn view(&self) -> ConnectionView {
        ConnectionView {
            target: self.target@,
            environment: self.environment,
            source: self.source.words(),
        }
    }
}

impl Default for Connection {
    fn default() -> (connection: Connection)
        ensures
            connection@ == (ConnectionView {
                target: "127.0.0.1:6379/0"@,
                environment: Environment::Local,
                source: "from default"@,
            }),
    {
        Connection {
            target: text::owned("127.0.0.1:6379/0"),
            environment: Environment::Local,
            source: Source::Default,
        }
    }
}

/// A read that has been asked for and not answered.
#[derive(Clone, Debug, PartialEq, Eq)]
pub struct PendingRead {
    pub name: KeyName,
    pub token: ReadToken,
    pub index: Option<usize>,
    pub issued_at_ms: Option<u64>,
    /// Whether the value cursor is to be activated when the value lands.
    pub activate_cursor: bool,
    /// Whether this reads back what this session wrote.
    pub own_write: bool,
}

#[verifier::ext_equal]
pub struct PendingReadView {
    pub name: Seq<u8>,
    pub token: ReadToken,
    pub index: Option<usize>,
    pub issued_at_ms: Option<u64>,
    pub activate_cursor: bool,
    pub own_write: bool,
}

impl View for PendingRead {
    type V = PendingReadView;

    open spec fn view(&self) -> PendingReadView {
        PendingReadView {
            name: self.name@,
            token: self.token,
            index: self.index,
            issued_at_ms: self.issued_at_ms,
            activate_cursor: self.activate_cursor,
            own_write: self.own_write,
        }
    }
}

/// Where the Open key stands relative to the cursor of the key list.
#[derive(Clone, Copy, Debug, PartialEq, Eq, Structural)]
pub enum Attachment {
    /// On the selected row.
    Attached,
    /// So many rows below it, or above if negative.
    Detached { rows: i128 },
    /// On no row.
    DetachedOffList,
}

/// A list's first row on screen, and its selected row.
#[derive(Clone, Copy, Debug, PartialEq, Eq, Structural)]
pub struct Viewport {
    pub offset: usize,
    pub selected: usize,
}

impl Viewport {
    /// Scrolled as little as it takes to have the selected row among `height`
    /// rows on screen.
    pub open spec fn following(self, height: usize) -> Viewport {
        Viewport {
            offset: if self.selected < self.offset || height == 0 {
                self.selected
            } else if self.selected - self.offset >= height {
                (self.selected - height + 1) as usize
            } else {
                self.offset
            },
            selected: self.selected,
        }
    }

    pub fn scrolled_to_selection(self, height: usize) -> (view: Viewport)
        ensures
            view == self.following(height),
    {
        let offset: usize = if self.selected < self.offset || height == 0 {
            self.selected
        } else if self.selected - self.offset >= height {
            self.selected - (height - 1)
        } else {
            self.offset
        };
        Viewport { offset, selected: self.selected }
    }
}

/// `from` moved by `by`, kept among `len` rows.
pub fn moved_by(from: usize, by: isize, len: usize) -> (to: usize)
    ensures
        len == 0 ==> to == 0,
        len > 0 ==> to == layout::clamped(from + by, 0, len - 1),
{
    if len == 0 {
        return 0;
    }
    let wanted: i128 = from as i128 + by as i128;
    let last: i128 = len as i128 - 1;
    if wanted < 0 {
        0
    } else if wanted > last {
        len - 1
    } else {
        wanted as usize
    }
}

/// Following the selection shows it, and scrolls no further than it must: rows
/// already on screen stay there where that is enough.
pub proof fn following_shows_the_selection(view: Viewport, height: usize)
    requires
        height > 0,
    ensures
        view.following(height).offset <= view.selected,
        view.selected < view.following(height).offset + height,
        view.offset <= view.selected < view.offset + height ==> view.following(height) == view,
{
}

} // verus!
