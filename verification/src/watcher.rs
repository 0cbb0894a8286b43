//! What the watcher is doing, and the supervisor that restarts watch sessions
//! for as long as watching is switched on.
//!
//! The supervisor is a state machine: the caller performs each action it
//! asks for (waiting for the switch, running a session, sleeping) and hands
//! back what came of it.
use vstd::prelude::*;

use crate::text::decimal;

verus! {

/// How long to wait, in seconds, before restarting a watch session that
/// failed outright (Syncthing unreachable at startup, the folder gone from its
/// config, ...).
pub const RESTART_DELAY_SECS: u64 = 10;

#[derive(Debug, Clone, Copy, PartialEq, Eq, Structural)]
pub enum WatchState {
    /// Switched off; nothing is polling.
    Paused,
    /// Sweeping files that already exist in the source folder.
    Scanning,
    /// Long-polling Syncthing for new events.
    Watching,
    /// The session failed and will be retried.
    Failed,
}

/// How a state is shown to the user.
pub open spec fn state_label(state: WatchState) -> Seq<char> {
    match state {
        WatchState::Paused => "Paused"@,
        WatchState::Scanning => "Scanning"@,
        WatchState::Watching => "Watching"@,
        WatchState::Failed => "Failed"@,
    }
}

impl WatchState {
    /// How the state is shown to the user.
    pub fn label(&self) -> (s: String)
        ensures
            s@ == state_label(*self),
    {
        match self {
            WatchState::Paused => String::from_str("Paused"),
            WatchState::Scanning => String::from_str("Scanning"),
            WatchState::Watching => String::from_str("Watching"),
            WatchState::Failed => String::from_str("Failed"),
        }
    }
}

#[derive(Debug, Clone)]
pub struct Status {
    pub state: WatchState,
    pub moved: u64,
    pub last_error: Option<String>,
    /// Bumped on every change, so a UI can skip redrawing when nothing moved.
    pub generation: u64,
}

/// A change to the status that a step of the watcher asks for.
#[derive(Debug, Clone)]
pub enum StatusChange {
    /// Nothing changes.
    Keep,
    /// Enter a state that is not `Failed`.
    Enter(WatchState),
    /// The session failed with this message.
    Fail(String),
    /// This many more files were moved.
    Moved(u64),
}

/// The single view of what the watcher is doing, which the supervisor and
/// the sessions write and a UI reads.
///
/// Several threads share it by putting it behind a lock; every change made
/// here is a couple of field writes.
pub struct StatusHandle {
    status: Status,
}

/// The status a change leads to, before the generation is bumped.
pub open spec fn changed_status(s: Status, change: StatusChange) -> Status {
    match change {
        StatusChange::Keep => s,
        StatusChange::Enter(state) => Status {
            state,
            last_error: if state != WatchState::Failed {
                None
            } else {
                s.last_error
            },
            ..s
        },
        StatusChange::Fail(error) => Status {
            state: WatchState::Failed,
            last_error: Some(error),
            ..s
        },
        StatusChange::Moved(count) => Status { moved: (s.moved + count) as u64, ..s },
    }
}

/// Whether a change touches the status at all (adding zero moves does not).
pub open spec fn changes_anything(change: StatusChange) -> bool {
    match change {
        StatusChange::Keep => false,
        StatusChange::Moved(count) => count > 0,
        _ => true,
    }
}

/// Whether the status has room for a change without its counters
/// overflowing.
pub open spec fn can_apply(s: Status, change: StatusChange) -> bool {
    &&& changes_anything(change) ==> s.generation < u64::MAX
    &&& change matches StatusChange::Moved(count) ==> s.moved + count <= u64::MAX
}

/// The status after a change: the change itself, with the generation bumped
/// once when anything changed.
pub open spec fn applied_status(s: Status, change: StatusChange) -> Status {
    if changes_anything(change) {
        Status { generation: (s.generation + 1) as u64, ..changed_status(s, change) }
    } else {
        s
    }
}

impl View for StatusHandle {
    type V = Status;

    closed spec fn view(&self) -> Status {
        self.status
    }
}

impl StatusHandle {
    /// A fresh status: paused, nothing moved, no error, generation zero.
    pub fn new() -> (h: Self)
        ensures
            h@.state == WatchState::Paused,
            h@.moved == 0,
            h@.last_error is None,
            h@.generation == 0,
    {
        StatusHandle {
            status: Status { state: WatchState::Paused, moved: 0, last_error: None, generation: 0 },
        }
    }

    /// A copy of the current status.
    pub fn get(&self) -> (s: Status)
        ensures
            s == self@,
    {
        Status {
            state: self.status.state,
            moved: self.status.moved,
            last_error: match &self.status.last_error {
                Some(e) => Some(e.clone()),
                None => None,
            },
            generation: self.status.generation,
        }
    }

    /// Replace the status with `next`, bumping the generation.
    fn update(&mut self, next: Status)
        requires
            old(self)@.generation < u64::MAX,
        ensures
            final(self)@ == (Status { generation: (old(self)@.generation + 1) as u64, ..next }),
    {
        let generation = self.status.generation + 1;
        self.status = Status { generation, ..next };
    }

    /// Enter `state`; any state but `Failed` clears the last error.
    pub fn set_state(&mut self, state: WatchState)
        requires
            old(self)@.generation < u64::MAX,
        ensures
            final(self)@ == applied_status(old(self)@, StatusChange::Enter(state)),
            final(self)@.state == state,
            final(self)@.moved == old(self)@.moved,
    {
        let last_error = if state != WatchState::Failed {
            None
        } else {
            match &self.status.last_error {
                Some(e) => Some(e.clone()),
                None => None,
            }
        };
        let next = Status {
            state,
            moved: self.status.moved,
            last_error,
            generation: self.status.generation,
        };
        self.update(next);
    }

    /// Record that the session failed with `error`.
    pub fn set_failed(&mut self, error: String)
        requires
            old(self)@.generation < u64::MAX,
        ensures
            final(self)@ == applied_status(old(self)@, StatusChange::Fail(error)),
            final(self)@.state == WatchState::Failed,
            final(self)@.last_error == Some(error),
            final(self)@.moved == old(self)@.moved,
    {
        let next = Status {
            state: WatchState::Failed,
            moved: self.status.moved,
            last_error: Some(error),
            generation: self.status.generation,
        };
        self.update(next);
    }

    /// Count `count` more moved files; counting none changes nothing.
    pub fn record_moves(&mut self, count: u64)
        requires
            count > 0 ==> old(self)@.generation < u64::MAX,
            old(self)@.moved + count <= u64::MAX,
        ensures
            final(self)@ == applied_status(old(self)@, StatusChange::Moved(count)),
            final(self)@.moved == old(self)@.moved + count,
            final(self)@.state == old(self)@.state,
            final(self)@.last_error == old(self)@.last_error,
    {
        if count > 0 {
            let next = Status {
                state: self.status.state,
                moved: self.status.moved + count,
                last_error: match &self.status.last_error {
                    Some(e) => Some(e.clone()),
                    None => None,
                },
                generation: self.status.generation,
            };
            self.update(next);
        }
    }

    /// Apply a change that a step of the watcher asked for.
    pub fn apply(&mut self, change: StatusChange)
        requires
            can_apply(old(self)@, change),
        ensures
            final(self)@ == applied_status(old(self)@, change),
    {
        match change {
            StatusChange::Keep => {},
            StatusChange::Enter(state) => self.set_state(state),
            StatusChange::Fail(error) => self.set_failed(error),
            StatusChange::Moved(count) => self.record_moves(count),
        }
    }
}

/// Every change to the status bumps its generation by exactly one, and a
/// request that changes nothing leaves the status as it was: a UI that sees
/// the same generation twice has nothing to redraw.
pub proof fn law_generation_tracks_changes(s: Status, change: StatusChange)
    requires
        can_apply(s, change),
    ensures
        changes_anything(change) ==> applied_status(s, change).generation == s.generation + 1,
        !changes_anything(change) ==> applied_status(s, change) == s,
{
}

/// Every update of the status is the change itself, which leaves the
/// generation alone, followed by one bump of the generation: whichever of
/// `set_state`, `set_failed` and `record_moves` (or `apply`) made it.
pub proof fn law_update_bumps_generation_once(s: Status, change: StatusChange)
    requires
        changes_anything(change),
        can_apply(s, change),
    ensures
        changed_status(s, change).generation == s.generation,
        applied_status(s, change) == (Status {
            generation: (s.generation + 1) as u64,
            ..changed_status(s, change)
        }),
        applied_status(s, change).generation == s.generation + 1,
{
}

/// Entering a state puts the status in that state, whatever it was in
/// before, and leaves the count of moved files alone; entering any state but
/// `Failed` clears the error, and a failure always shows as `Failed` with
/// its message.
pub proof fn law_entering_a_state_sets_it(s: Status, state: WatchState, error: String)
    ensures
        applied_status(s, StatusChange::Enter(state)).state == state,
        applied_status(s, StatusChange::Enter(state)).moved == s.moved,
        state != WatchState::Failed ==> applied_status(s, StatusChange::Enter(state)).last_error
            is None,
        applied_status(s, StatusChange::Fail(error)).state == WatchState::Failed,
        applied_status(s, StatusChange::Fail(error)).last_error == Some(error),
{
}

/// How many of `changes` touch the status.
pub open spec fn changing_count(changes: Seq<StatusChange>) -> nat
    decreases changes.len(),
{
    if changes.len() == 0 {
        0
    } else {
        changing_count(changes.drop_last()) + if changes_anything(changes.last()) {
            1nat
        } else {
            0nat
        }
    }
}

/// Over a whole history of changes applied to the status, one after another,
/// the generation counts the changes that touched it: it rises by exactly one
/// for each, so it never repeats a value once the status has changed, and
/// the count of moved files never goes down.
pub proof fn law_generation_counts_changes(statuses: Seq<Status>, changes: Seq<StatusChange>)
    requires
        statuses.len() == changes.len() + 1,
        forall|i: int|
            0 <= i < changes.len() ==> can_apply(statuses[i], #[trigger] changes[i])
                && statuses[i + 1] == applied_status(statuses[i], changes[i]),
    ensures
        forall|i: int|
            0 <= i <= changes.len() ==> (#[trigger] statuses[i]).generation == statuses[0].generation
                + changing_count(changes.take(i)) && statuses[i].moved >= statuses[0].moved,
        forall|i: int, j: int|
            0 <= i < j <= changes.len() && changing_count(changes.take(j)) > changing_count(
                changes.take(i),
            ) ==> #[trigger] statuses[i].generation < #[trigger] statuses[j].generation,
{
    assert forall|i: int| 0 <= i <= changes.len() implies (#[trigger] statuses[i]).generation
        == statuses[0].generation + changing_count(changes.take(i)) && statuses[i].moved
        >= statuses[0].moved by {
        lemma_generation_run(statuses, changes, i);
    }
    assert forall|i: int, j: int|
        0 <= i < j <= changes.len() && changing_count(changes.take(j)) > changing_count(
            changes.take(i),
        ) implies #[trigger] statuses[i].generation < #[trigger] statuses[j].generation by {
        lemma_generation_run(statuses, changes, i);
        lemma_generation_run(statuses, changes, j);
    }
}

proof fn lemma_generation_run(statuses: Seq<Status>, changes: Seq<StatusChange>, n: int)
    requires
        statuses.len() == changes.len() + 1,
        forall|i: int|
            0 <= i < changes.len() ==> can_apply(statuses[i], #[trigger] changes[i])
                && statuses[i + 1] == applied_status(statuses[i], changes[i]),
        0 <= n <= changes.len(),
    ensures
        statuses[n].generation == statuses[0].generation + changing_count(changes.take(n)),
        statuses[n].moved >= statuses[0].moved,
    decreases n,
{
    if n == 0 {
        assert(changes.take(0).len() == 0);
    } else {
        lemma_generation_run(statuses, changes, n - 1);
        assert(can_apply(statuses[n - 1], changes[n - 1]));
        assert(changes.take(n).drop_last() =~= changes.take(n - 1));
        assert(changes.take(n).last() == changes[n - 1]);
    }
}

/// The count of moved files never goes down, and entering any state but
/// `Failed` clears the error shown.
pub proof fn law_moved_never_decreases(s: Status, change: StatusChange)
    requires
        can_apply(s, change),
    ensures
        applied_status(s, change).moved >= s.moved,
        change matches StatusChange::Enter(state) && state != WatchState::Failed
            ==> applied_status(s, change).last_error is None,
        change matches StatusChange::Fail(e) ==> applied_status(s, change).state
            == WatchState::Failed && applied_status(s, change).last_error == Some(e),
{
}

/// Where the supervisor is.
#[derive(Debug, Clone, Copy, PartialEq, Eq, Structural)]
pub enum SupervisorState {
    /// At the top of its loop, about to look at the switch.
    Idle,
    /// Paused, waiting for watching to be switched on.
    Waiting,
    /// A watch session is running.
    Running,
    /// A session failed; waiting before the next one.
    BackingOff,
    /// Shut down.
    Done,
}

/// What came of the last action the supervisor asked for. `closed` says that
/// the switch is gone, which means the program is shutting down; `enabled`
/// is the position of the switch.
#[derive(Debug)]
pub enum SupervisorEvent {
    /// Look at the switch.
    Check { enabled: bool },
    /// The wait for watching to be switched on ended.
    WaitEnded { closed: bool },
    /// The session returned: `Ok` when it was switched off or dropped.
    SessionEnded { result: Result<(), String>, closed: bool, enabled: bool },
    /// The back-off ended, by timeout or because the switch was toggled.
    BackoffEnded { closed: bool, enabled: bool },
}

/// What the supervisor asks for next.
#[derive(Debug, Clone, PartialEq, Eq, Structural)]
pub enum SupervisorAction {
    /// Wait until watching is switched on (or the switch is gone).
    WaitForEnable,
    /// Run a fresh watch session.
    RunSession,
    /// Sleep this many seconds, waking early if the switch is toggled.
    Backoff { seconds: u64 },
    /// Stop.
    Exit,
}

/// The supervisor's decision at the top of its loop.
pub open spec fn top_of_loop(enabled: bool) -> (SupervisorState, SupervisorAction, StatusChange) {
    if enabled {
        (SupervisorState::Running, SupervisorAction::RunSession, StatusChange::Keep)
    } else {
        (
            SupervisorState::Waiting,
            SupervisorAction::WaitForEnable,
            StatusChange::Enter(WatchState::Paused),
        )
    }
}

/// The supervisor's transitions: from a state and what came of the last
/// action, the next state, the next action and the change to the status.
pub open spec fn supervise_spec(state: SupervisorState, event: SupervisorEvent) -> (
    SupervisorState,
    SupervisorAction,
    StatusChange,
) {
    match (state, event) {
        (SupervisorState::Idle, SupervisorEvent::Check { enabled }) => top_of_loop(enabled),
        (SupervisorState::Waiting, SupervisorEvent::WaitEnded { closed }) => if closed {
            (SupervisorState::Done, SupervisorAction::Exit, StatusChange::Keep)
        } else {
            (SupervisorState::Running, SupervisorAction::RunSession, StatusChange::Keep)
        },
        (SupervisorState::Running, SupervisorEvent::SessionEnded { result, closed, enabled }) => {
            match result {
                Ok(()) => if closed {
                    (SupervisorState::Done, SupervisorAction::Exit, StatusChange::Keep)
                } else {
                    top_of_loop(enabled)
                },
                Err(message) => (
                    SupervisorState::BackingOff,
                    SupervisorAction::Backoff { seconds: RESTART_DELAY_SECS },
                    StatusChange::Fail(message),
                ),
            }
        },
        (SupervisorState::BackingOff, SupervisorEvent::BackoffEnded { closed, enabled }) => if closed {
            (SupervisorState::Done, SupervisorAction::Exit, StatusChange::Keep)
        } else {
            top_of_loop(enabled)
        },
        // Anything else does not belong to the state: stop rather than guess.
        _ => (SupervisorState::Done, SupervisorAction::Exit, StatusChange::Keep),
    }
}

fn top_of_loop_exec(enabled: bool) -> (r: (SupervisorState, SupervisorAction, StatusChange))
    ensures
        r == top_of_loop(enabled),
{
    if enabled {
        (SupervisorState::Running, SupervisorAction::RunSession, StatusChange::Keep)
    } else {
        (
            SupervisorState::Waiting,
            SupervisorAction::WaitForEnable,
            StatusChange::Enter(WatchState::Paused),
        )
    }
}

/// One step of the supervisor, which restarts watch sessions for as long as
/// watching is switched on.
///
/// Switching off ends the running session; switching on starts a fresh one,
/// which sweeps up everything Syncthing delivered while it was paused. A
/// failed session is retried after a pause, or at once when the switch is
/// toggled.
pub fn supervise(state: SupervisorState, event: SupervisorEvent) -> (r: (
    SupervisorState,
    SupervisorAction,
    StatusChange,
))
    ensures
        r == supervise_spec(state, event),
{
    match (state, event) {
        (SupervisorState::Idle, SupervisorEvent::Check { enabled }) => top_of_loop_exec(enabled),
        (SupervisorState::Waiting, SupervisorEvent::WaitEnded { closed }) => {
            if closed {
                (SupervisorState::Done, SupervisorAction::Exit, StatusChange::Keep)
            } else {
                (SupervisorState::Running, SupervisorAction::RunSession, StatusChange::Keep)
            }
        },
        (SupervisorState::Running, SupervisorEvent::SessionEnded { result, closed, enabled }) => {
            match result {
                Ok(()) => {
                    if closed {
                        (SupervisorState::Done, SupervisorAction::Exit, StatusChange::Keep)
                    } else {
                        top_of_loop_exec(enabled)
                    }
                },
                Err(message) => (
                    SupervisorState::BackingOff,
                    SupervisorAction::Backoff { seconds: RESTART_DELAY_SECS },
                    StatusChange::Fail(message),
                ),
            }
        },
        (SupervisorState::BackingOff, SupervisorEvent::BackoffEnded { closed, enabled }) => {
            if closed {
                (SupervisorState::Done, SupervisorAction::Exit, StatusChange::Keep)
            } else {
                top_of_loop_exec(enabled)
            }
        },
        _ => (SupervisorState::Done, SupervisorAction::Exit, StatusChange::Keep),
    }
}

/// While watching is switched off no session is started: whenever the switch
/// reads off, the supervisor pauses (and says so in the status) instead of
/// running a session, and once the switch is gone it only ever exits.
pub proof fn law_paused_runs_nothing(state: SupervisorState, event: SupervisorEvent)
    ensures
        event matches SupervisorEvent::Check { enabled } && !enabled ==> supervise_spec(
            state,
            event,
        ).1 != SupervisorAction::RunSession,
        event matches SupervisorEvent::SessionEnded { result, closed, enabled } && result is Ok
            && !enabled ==> supervise_spec(state, event).1 != SupervisorAction::RunSession,
        event matches SupervisorEvent::BackoffEnded { closed, enabled } && !enabled
            ==> supervise_spec(state, event).1 != SupervisorAction::RunSession,
        (state == SupervisorState::Idle && event == SupervisorEvent::Check { enabled: false })
            ==> supervise_spec(state, event).2 == StatusChange::Enter(
            WatchState::Paused,
        ),
        supervise_spec(state, event).0 == SupervisorState::Done <==> supervise_spec(
            state,
            event,
        ).1 == SupervisorAction::Exit,
{
}

/// Whether `event` is what the supervisor waits for in `state`.
pub open spec fn expects(state: SupervisorState, event: SupervisorEvent) -> bool {
    match (state, event) {
        (SupervisorState::Idle, SupervisorEvent::Check { .. }) => true,
        (SupervisorState::Waiting, SupervisorEvent::WaitEnded { .. }) => true,
        (SupervisorState::Running, SupervisorEvent::SessionEnded { .. }) => true,
        (SupervisorState::BackingOff, SupervisorEvent::BackoffEnded { .. }) => true,
        _ => false,
    }
}

/// Whether `event` says the switch is gone.
pub open spec fn switch_gone(event: SupervisorEvent) -> bool {
    match event {
        SupervisorEvent::Check { .. } => false,
        SupervisorEvent::WaitEnded { closed } => closed,
        SupervisorEvent::SessionEnded { closed, .. } => closed,
        SupervisorEvent::BackoffEnded { closed, .. } => closed,
    }
}

/// Whether `event` finds watching switched on (a wait for it that ended
/// without the switch going away found it on).
pub open spec fn switch_on(event: SupervisorEvent) -> bool {
    match event {
        SupervisorEvent::Check { enabled } => enabled,
        SupervisorEvent::WaitEnded { closed } => !closed,
        SupervisorEvent::SessionEnded { enabled, .. } => enabled,
        SupervisorEvent::BackoffEnded { enabled, .. } => enabled,
    }
}

/// While watching is switched on the supervisor keeps a session going: it
/// exits only once the switch is gone (or on an event that does not belong
/// to where it is), never because it reads the switch as on, and whenever it
/// reads the switch as on, with the switch still there and no session that
/// just failed, it starts a session.
pub proof fn law_switched_on_runs_a_session(state: SupervisorState, event: SupervisorEvent)
    ensures
        supervise_spec(state, event).1 == SupervisorAction::Exit ==> switch_gone(event) || !expects(
            state,
            event,
        ),
        expects(state, event) && !switch_gone(event) && switch_on(event) && !(
        event matches SupervisorEvent::SessionEnded { result, .. } && result is Err)
            ==> supervise_spec(state, event).0 == SupervisorState::Running && supervise_spec(
            state,
            event,
        ).1 == SupervisorAction::RunSession,
{
}

/// Once the supervisor has stopped, it stays stopped.
pub proof fn law_done_is_final(event: SupervisorEvent)
    ensures
        supervise_spec(SupervisorState::Done, event).0 == SupervisorState::Done,
        supervise_spec(SupervisorState::Done, event).1 == SupervisorAction::Exit,
{
}

/// A failed session is always reported in the status, with its message,
/// before the supervisor backs off.
pub proof fn law_failure_is_reported(message: String, closed: bool, enabled: bool)
    ensures
        supervise_spec(
            SupervisorState::Running,
            SupervisorEvent::SessionEnded { result: Err(message), closed, enabled },
        ) == (
            SupervisorState::BackingOff,
            SupervisorAction::Backoff { seconds: RESTART_DELAY_SECS },
            StatusChange::Fail(message),
        ),
{
}

} // verus!
