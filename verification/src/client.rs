//! Talking to Syncthing: the requests to make, and the watch session that
//! decides, from what Syncthing answers, which files to move.
//!
//! The session is a state machine. The caller makes each request it asks for
//! (fetch the folder list, run the pre-scan, poll for events, move a file,
//! sleep) and hands back what came of it; the session never does I/O itself.
use vstd::prelude::*;

use crate::mover::{join, join_path};
use crate::text::{chars_of, decimal, decimal_text};
use crate::types::{Device, EventData, Folder, SyncThingEvent};
use crate::watcher::{StatusChange, WatchState};

verus! {

/// The event types the watcher subscribes to.
///
/// Syncthing's event IDs are per-filter: seeding the cursor with one filter
/// and then polling with another yields IDs from a different sequence, which
/// makes the poll miss events or block forever, so both requests use this.
pub open spec fn event_filter() -> Seq<char> {
    "ItemFinished,DeviceConnected,DeviceDisconnected,DevicePaused,DeviceResumed"@
}

/// Shortest wait, in seconds, before polling again after a failed poll.
pub const RETRY_MIN_SECS: u64 = 1;

/// Longest wait, in seconds, before polling again after a failed poll.
pub const RETRY_MAX_SECS: u64 = 60;

/// The URL that long-polls for events after the event `since`.
pub open spec fn poll_url_text(base_url: Seq<char>, since: u64) -> Seq<char> {
    base_url + "/rest/events?events="@ + event_filter() + "&since="@ + decimal(since as nat)
}

/// The URL that asks for the most recent event, to seed the cursor.
pub open spec fn seed_url_text(base_url: Seq<char>) -> Seq<char> {
    base_url + "/rest/events?since=0&limit=1&events="@ + event_filter()
}

/// The error when no API key is configured.
pub open spec fn missing_key_text() -> Seq<char> {
    "API key is required — set SYNCTHING_API_KEY or pass --api-key"@
}

/// The error when a path needs the home directory and there is none.
pub open spec fn no_home_text() -> Seq<char> {
    "could not determine home directory"@
}

/// The URL of a REST endpoint, given as its path below the base URL (such as
/// `/rest/system/ping`).
pub fn endpoint_url(base_url: &str, endpoint: &str) -> (r: String)
    ensures
        r@ == base_url@ + endpoint@,
{
    String::from_str(base_url).concat(endpoint)
}

/// The URL that long-polls for events after the event `since`.
pub fn poll_url(base_url: &str, since: u64) -> (r: String)
    ensures
        r@ == poll_url_text(base_url@, since),
{
    let r = String::from_str(base_url).concat("/rest/events?events=").concat(
        "ItemFinished,DeviceConnected,DeviceDisconnected,DevicePaused,DeviceResumed",
    ).concat("&since=").concat(decimal_text(since).as_str());
    r
}

/// The URL that asks for the most recent event, to seed the cursor.
pub fn seed_url(base_url: &str) -> (r: String)
    ensures
        r@ == seed_url_text(base_url@),
{
    String::from_str(base_url).concat("/rest/events?since=0&limit=1&events=").concat(
        "ItemFinished,DeviceConnected,DeviceDisconnected,DevicePaused,DeviceResumed",
    )
}

/// The seeding request and the polling request ask for the same event
/// types: both URLs end their `events=` parameter with the one filter.
pub proof fn law_same_event_filter(base_url: Seq<char>, since: u64)
    ensures
        ({
            let seed = seed_url_text(base_url);
            seed.subrange(seed.len() - event_filter().len(), seed.len() as int) == event_filter()
        }),
        ({
            let poll = poll_url_text(base_url, since);
            let at: int = (base_url.len() + "/rest/events?events="@.len()) as int;
            poll.subrange(at, at + event_filter().len()) == event_filter()
        }),
{
    let seed = seed_url_text(base_url);
    assert(seed.subrange(seed.len() - event_filter().len(), seed.len() as int) =~= event_filter());
    let poll = poll_url_text(base_url, since);
    let at: int = (base_url.len() + "/rest/events?events="@.len()) as int;
    assert(poll.subrange(at, at + event_filter().len()) =~= event_filter());
}

/// The API key to send, or the error that there is none.
///
/// A missing key is a configuration problem rather than a transient one, so
/// it ends a session instead of being retried.
pub fn require_api_key(api_key: &Option<String>) -> (r: Result<String, String>)
    ensures
        match api_key {
            Some(k) => r == Ok::<String, String>(*k),
            None => r matches Err(e) && e@ == missing_key_text(),
        },
{
    match api_key {
        Some(k) => Ok(k.clone()),
        None => Err(String::from_str("API key is required — set SYNCTHING_API_KEY or pass --api-key")),
    }
}

/// The ID of the last event in a batch, or 0 for an empty one: where the
/// cursor is seeded.
pub open spec fn last_event_id(events: Seq<SyncThingEvent>) -> u64 {
    if events.len() > 0 {
        events.last().id
    } else {
        0
    }
}

/// The ID of the most recent event, from the answer to the seeding request.
pub fn latest_event_id(events: &Vec<SyncThingEvent>) -> (r: u64)
    ensures
        r == last_event_id(events@),
{
    if events.len() > 0 {
        events[events.len() - 1].id
    } else {
        0
    }
}

/// The wait after a failed poll, given the wait before it: double, up to
/// `RETRY_MAX_SECS`.
pub open spec fn next_backoff_secs(secs: u64) -> u64 {
    if secs * 2 < RETRY_MAX_SECS {
        (secs * 2) as u64
    } else {
        RETRY_MAX_SECS
    }
}

/// The wait after a failed poll, given the wait before it.
pub fn next_backoff(secs: u64) -> (r: u64)
    requires
        secs <= RETRY_MAX_SECS,
    ensures
        r == next_backoff_secs(secs),
{
    if secs * 2 < RETRY_MAX_SECS {
        secs * 2
    } else {
        RETRY_MAX_SECS
    }
}

/// `~/`, which Syncthing writes literally at the start of folder paths.
pub open spec fn home_prefix() -> Seq<char> {
    seq!['~', '/']
}

/// A folder path with a leading `~/` replaced by the home directory; `None`
/// when it needs one and there is none.
pub open spec fn expanded(path: Seq<char>, home: Option<Seq<char>>) -> Option<Seq<char>> {
    if path.len() >= 2 && path.take(2) == home_prefix() {
        match home {
            Some(h) => Some(join(h, path.skip(2))),
            None => None,
        }
    } else {
        Some(path)
    }
}

/// The view of an optional string.
pub open spec fn opt_view(s: Option<String>) -> Option<Seq<char>> {
    match s {
        Some(t) => Some(t@),
        None => None,
    }
}

/// Syncthing stores folder paths with a literal `~/` prefix, which the
/// operating system will not expand: replace it with `home`.
pub fn expand_home(path: &str, home: &Option<String>) -> (r: Result<String, String>)
    ensures
        match expanded(path@, opt_view(*home)) {
            Some(p) => r matches Ok(q) && q@ == p,
            None => r matches Err(e) && e@ == no_home_text(),
        },
{
    let v = chars_of(path);
    if v.len() >= 2 && v[0] == '~' && v[1] == '/' {
        assert(path@.take(2) =~= home_prefix());
        match home {
            Some(h) => {
                let rest = path.substring_char(2, v.len());
                assert(rest@ =~= path@.skip(2));
                Ok(join_path(h.as_str(), rest))
            },
            None => Err(String::from_str("could not determine home directory")),
        }
    } else {
        assert(!(path@.len() >= 2 && path@.take(2) == home_prefix())) by {
            if path@.len() >= 2 && path@.take(2) == home_prefix() {
                assert(path@.take(2)[0] == path@[0]);
                assert(path@.take(2)[1] == path@[1]);
            }
        }
        Ok(String::from_str(path))
    }
}

/// The position of the first folder with the ID `id`, at or after `i`.
pub open spec fn folder_index_from(folders: Seq<Folder>, id: Seq<char>, i: int) -> Option<int>
    decreases folders.len() - i,
{
    if i < 0 || i >= folders.len() {
        None
    } else if folders[i].id@ == id {
        Some(i)
    } else {
        folder_index_from(folders, id, i + 1)
    }
}

/// The first folder with the ID `id`.
pub open spec fn folder_with_id(folders: Seq<Folder>, id: Seq<char>) -> Option<Folder> {
    match folder_index_from(folders, id, 0) {
        Some(i) => Some(folders[i]),
        None => None,
    }
}

/// Where an event asks for a file to be moved from and to: only an
/// `ItemFinished` event for the watched folder that synced without error,
/// from the item's place in the folder to the same place under the target.
pub open spec fn move_for(
    source_folder_id: Seq<char>,
    target: Seq<char>,
    home: Option<Seq<char>>,
    folders: Seq<Folder>,
    event: SyncThingEvent,
) -> Option<(Seq<char>, Seq<char>)> {
    match event.data {
        EventData::ItemFinished(d) => {
            if d.folder@ != source_folder_id || d.error is Some {
                None
            } else {
                match folder_with_id(folders, d.folder@) {
                    None => None,
                    Some(f) => match expanded(f.path@, home) {
                        None => None,
                        Some(root) => Some((join(root, d.item@), join(target, d.item@))),
                    },
                }
            }
        },
        EventData::Other => None,
    }
}

/// Where the session is.
#[derive(Debug, Clone, Copy, PartialEq, Eq, Structural)]
pub enum SessionPhase {
    /// Not started.
    Start,
    /// Waiting for the device list.
    AwaitDevices,
    /// Waiting for the folder list.
    AwaitFolders,
    /// Waiting for the pre-scan of the source folder.
    AwaitScan,
    /// Waiting for the ID of the most recent event.
    AwaitSeed,
    /// Waiting for a batch of events.
    AwaitPoll,
    /// Waiting out the back-off after a failed poll.
    AwaitSleep,
    /// Waiting for a file to be moved.
    AwaitMove,
    /// Ended with an error.
    Ended,
}

/// What came of the last request the session asked for; errors are given as
/// their messages.
pub enum SessionReply {
    /// Start the session.
    Begin,
    Devices(Result<Vec<Device>, String>),
    Folders(Result<Vec<Folder>, String>),
    /// How many files the pre-scan moved.
    Scanned(Result<u64, String>),
    /// The ID of the most recent event.
    Seeded(Result<u64, String>),
    Polled(Result<Vec<SyncThingEvent>, String>),
    Slept,
    /// Whether the file was moved (rather than deliberately skipped).
    Moved(Result<bool, String>),
    /// Watching was switched off while the last request was under way.
    SwitchedOff,
}

/// What the session asks for next.
#[derive(Debug, Clone, PartialEq, Eq)]
pub enum SessionAction {
    FetchDevices,
    FetchFolders,
    /// Move everything already in `root` to `target`, keeping relative paths.
    PreScan { root: String, target: String },
    /// Fetch the most recent event.
    SeedCursor,
    /// Long-poll for events after the event `since`.
    Poll { since: u64 },
    /// Sleep before polling again.
    Sleep { seconds: u64 },
    /// Move one file. Failing to move it does not end the session.
    MoveFile { source: String, destination: String },
    /// The session failed.
    Fail { message: String },
    /// The session is over because watching was switched off; nothing failed.
    Stop,
}

/// A watch session: sweep the source folder, then move each file Syncthing
/// reports as finished in it, for as long as the caller keeps it going.
pub struct WatchSession {
    pub source_folder_id: String,
    pub target_directory: String,
    /// The home directory, for folder paths that start with `~/`.
    pub home: Option<String>,
    pub has_api_key: bool,
    pub phase: SessionPhase,
    /// Syncthing's folders, as fetched when the session started.
    pub folders: Vec<Folder>,
    /// The ID of the last event seen.
    pub since: u64,
    /// The wait before the next poll if this one fails, in seconds.
    pub backoff: u64,
    /// The batch of events being worked through.
    pub events: Vec<SyncThingEvent>,
    /// The position in `events` to look at next.
    pub next_event: usize,
}

/// The first position at or after `from` of an event that asks for a move.
pub open spec fn next_move_from(s: WatchSession, from: int) -> Option<int>
    decreases s.events@.len() - from,
{
    if from < 0 || from >= s.events@.len() {
        None
    } else if move_for(
        s.source_folder_id@,
        s.target_directory@,
        opt_view(s.home),
        s.folders@,
        s.events@[from],
    ) is Some {
        Some(from)
    } else {
        next_move_from(s, from + 1)
    }
}

/// What the session does once it has an event batch to work through from
/// `from` on: ask for the next move, or poll again after the last event.
pub open spec fn continue_batch(pre: WatchSession, post: WatchSession, action: SessionAction) -> bool {
    &&& post.events@ == pre.events@
    &&& match next_move_from(pre, pre.next_event as int) {
        Some(k) => {
            let (src, dst) = move_for(
                pre.source_folder_id@,
                pre.target_directory@,
                opt_view(pre.home),
                pre.folders@,
                pre.events@[k],
            ).unwrap();
            &&& post.phase == SessionPhase::AwaitMove
            &&& post.next_event == k + 1
            &&& post.since == pre.since
            &&& action matches SessionAction::MoveFile { source, destination } && source@ == src
                && destination@ == dst
        },
        None => {
            let since = if pre.events@.len() > 0 {
                pre.events@.last().id
            } else {
                pre.since
            };
            &&& post.phase == SessionPhase::AwaitPoll
            &&& post.next_event == pre.events@.len()
            &&& post.since == since
            &&& action == SessionAction::Poll { since }
        },
    }
}

/// The session's fixed settings and its well-formedness.
pub open spec fn same_settings(pre: WatchSession, post: WatchSession) -> bool {
    &&& post.source_folder_id == pre.source_folder_id
    &&& post.target_directory == pre.target_directory
    &&& post.home == pre.home
    &&& post.has_api_key == pre.has_api_key
}

/// The message that a failed request leaves, under the session's context.
pub open spec fn failure(action: SessionAction, text: Seq<char>) -> bool {
    action matches SessionAction::Fail { message } && message@ == text
}

/// The session's transitions: how `post`, the action and the status change
/// follow from `pre` and the reply.
pub open spec fn session_step(
    pre: WatchSession,
    reply: SessionReply,
    post: WatchSession,
    action: SessionAction,
    change: StatusChange,
) -> bool {
    &&& same_settings(pre, post)
    &&& if reply is SwitchedOff && pre.phase != SessionPhase::Ended {
        &&& post == (WatchSession { phase: SessionPhase::Ended, ..pre })
        &&& action == SessionAction::Stop
        &&& change == StatusChange::Keep
    } else {
        session_reply_step(pre, reply, post, action, change)
    }
}

/// How the session answers a reply to the request it asked for, while
/// watching stays switched on.
pub open spec fn session_reply_step(
    pre: WatchSession,
    reply: SessionReply,
    post: WatchSession,
    action: SessionAction,
    change: StatusChange,
) -> bool {
    match (pre.phase, reply) {
        (SessionPhase::Start, SessionReply::Begin) => if pre.has_api_key {
            &&& post == (WatchSession { phase: SessionPhase::AwaitDevices, ..pre })
            &&& action == SessionAction::FetchDevices
            &&& change == StatusChange::Keep
        } else {
            &&& post == (WatchSession { phase: SessionPhase::Ended, ..pre })
            &&& failure(action, "failed to fetch device list: "@ + missing_key_text())
            &&& change == StatusChange::Keep
        },
        (SessionPhase::AwaitDevices, SessionReply::Devices(result)) => match result {
            Ok(_) => {
                &&& post == (WatchSession { phase: SessionPhase::AwaitFolders, ..pre })
                &&& action == SessionAction::FetchFolders
                &&& change == StatusChange::Keep
            },
            Err(e) => {
                &&& post == (WatchSession { phase: SessionPhase::Ended, ..pre })
                &&& failure(action, "failed to fetch device list: "@ + e@)
                &&& change == StatusChange::Keep
            },
        },
        (SessionPhase::AwaitFolders, SessionReply::Folders(result)) => match result {
            Ok(folders) => {
                &&& post.folders@ == folders@
                &&& match folder_with_id(folders@, pre.source_folder_id@) {
                    None => {
                        &&& post == (WatchSession { phase: SessionPhase::Ended, folders, ..pre })
                        &&& failure(
                            action,
                            "source folder '"@ + pre.source_folder_id@
                                + "' not found in Syncthing config"@,
                        )
                        &&& change == StatusChange::Keep
                    },
                    Some(f) => match expanded(f.path@, opt_view(pre.home)) {
                        None => {
                            &&& post == (WatchSession { phase: SessionPhase::Ended, folders, ..pre })
                            &&& failure(action, no_home_text())
                            &&& change == StatusChange::Keep
                        },
                        Some(root) => {
                            &&& post == (WatchSession { phase: SessionPhase::AwaitScan, folders, ..pre })
                            &&& action matches SessionAction::PreScan { root: r, target: t } && r@
                                == root && t == pre.target_directory
                            &&& change == StatusChange::Enter(WatchState::Scanning)
                        },
                    },
                }
            },
            Err(e) => {
                &&& post == (WatchSession { phase: SessionPhase::Ended, ..pre })
                &&& failure(action, "failed to fetch folder list: "@ + e@)
                &&& change == StatusChange::Keep
            },
        },
        (SessionPhase::AwaitScan, SessionReply::Scanned(result)) => match result {
            Ok(count) => {
                &&& post == (WatchSession { phase: SessionPhase::AwaitSeed, ..pre })
                &&& action == SessionAction::SeedCursor
                &&& change == StatusChange::Moved(count)
            },
            Err(e) => {
                &&& post == (WatchSession { phase: SessionPhase::Ended, ..pre })
                &&& failure(action, "pre-scan move failed: "@ + e@)
                &&& change == StatusChange::Keep
            },
        },
        (SessionPhase::AwaitSeed, SessionReply::Seeded(result)) => match result {
            Ok(id) => if pre.has_api_key {
                &&& post == (WatchSession {
                    phase: SessionPhase::AwaitPoll,
                    since: id,
                    backoff: RETRY_MIN_SECS,
                    ..pre
                })
                &&& action == SessionAction::Poll { since: id }
                &&& change == StatusChange::Enter(WatchState::Watching)
            } else {
                &&& post == (WatchSession { phase: SessionPhase::Ended, ..pre })
                &&& failure(action, missing_key_text())
                &&& change == StatusChange::Keep
            },
            Err(e) => {
                &&& post == (WatchSession { phase: SessionPhase::Ended, ..pre })
                &&& failure(action, e@)
                &&& change == StatusChange::Keep
            },
        },
        (SessionPhase::AwaitPoll, SessionReply::Polled(result)) => match result {
            Ok(events) => {
                let fresh = WatchSession { events, next_event: 0, ..pre };
                &&& post.folders@ == pre.folders@
                &&& post.backoff == RETRY_MIN_SECS
                &&& continue_batch(fresh, post, action)
                &&& change == StatusChange::Keep
            },
            Err(_) => {
                &&& post == (WatchSession {
                    phase: SessionPhase::AwaitSleep,
                    backoff: next_backoff_secs(pre.backoff),
                    ..pre
                })
                &&& action == SessionAction::Sleep { seconds: pre.backoff }
                &&& change == StatusChange::Keep
            },
        },
        (SessionPhase::AwaitSleep, SessionReply::Slept) => {
            &&& post == (WatchSession { phase: SessionPhase::AwaitPoll, ..pre })
            &&& action == SessionAction::Poll { since: pre.since }
            &&& change == StatusChange::Keep
        },
        (SessionPhase::AwaitMove, SessionReply::Moved(result)) => {
            &&& post.folders@ == pre.folders@
            &&& post.backoff == pre.backoff
            &&& continue_batch(pre, post, action)
            &&& change == match result {
                Ok(true) => StatusChange::Moved(1),
                _ => StatusChange::Keep,
            }
        },
        _ => {
            &&& post == (WatchSession { phase: SessionPhase::Ended, ..pre })
            &&& failure(action, "watch session received a reply it did not ask for"@)
            &&& change == StatusChange::Keep
        },
    }
}

impl WatchSession {
    /// The session's invariant: the back-off stays within its bounds and the
    /// position in the batch within the batch.
    pub open spec fn wf(&self) -> bool {
        &&& RETRY_MIN_SECS <= self.backoff <= RETRY_MAX_SECS
        &&& self.next_event <= self.events@.len()
    }

    /// A session that has not started, for the folder `source_folder_id`,
    /// moving files to `target_directory`.
    pub fn new(
        source_folder_id: String,
        target_directory: String,
        home: Option<String>,
        has_api_key: bool,
    ) -> (s: Self)
        ensures
            s.wf(),
            s.phase == SessionPhase::Start,
            s.source_folder_id == source_folder_id,
            s.target_directory == target_directory,
            s.home == home,
            s.has_api_key == has_api_key,
            s.folders@.len() == 0,
            s.events@.len() == 0,
            s.since == 0,
            s.backoff == RETRY_MIN_SECS,
            s.next_event == 0,
    {
        WatchSession {
            source_folder_id,
            target_directory,
            home,
            has_api_key,
            phase: SessionPhase::Start,
            folders: Vec::new(),
            since: 0,
            backoff: RETRY_MIN_SECS,
            events: Vec::new(),
            next_event: 0,
        }
    }

    /// The position of the first folder with the ID `id`.
    fn find_folder(folders: &Vec<Folder>, id: &String) -> (r: Option<usize>)
        ensures
            match r {
                Some(i) => folder_index_from(folders@, id@, 0) == Some(i as int) && i
                    < folders.len(),
                None => folder_index_from(folders@, id@, 0) is None,
            },
    {
        let mut i: usize = 0;
        while i < folders.len()
            invariant
                i <= folders.len(),
                folder_index_from(folders@, id@, 0) == folder_index_from(folders@, id@, i as int),
            decreases folders.len() - i,
        {
            if folders[i].id == *id {
                return Some(i);
            }
            i = i + 1;
        }
        None
    }

    /// Where `event` asks for a file to be moved from and to.
    fn plan_move(&self, event: &SyncThingEvent) -> (r: Option<(String, String)>)
        ensures
            match move_for(
                self.source_folder_id@,
                self.target_directory@,
                opt_view(self.home),
                self.folders@,
                *event,
            ) {
                Some((src, dst)) => r matches Some((s, d)) && s@ == src && d@ == dst,
                None => r is None,
            },
    {
        match &event.data {
            EventData::ItemFinished(d) => {
                if d.folder != self.source_folder_id || d.error.is_some() {
                    return None;
                }
                let i = match Self::find_folder(&self.folders, &d.folder) {
                    Some(i) => i,
                    None => return None,
                };
                match expand_home(self.folders[i].path.as_str(), &self.home) {
                    Ok(root) => Some(
                        (
                            join_path(root.as_str(), d.item.as_str()),
                            join_path(self.target_directory.as_str(), d.item.as_str()),
                        ),
                    ),
                    Err(_) => None,
                }
            },
            EventData::Other => None,
        }
    }

    /// Work through the batch from `next_event`: ask for the next move, or
    /// poll again after the last event.
    fn continue_with_batch(&mut self) -> (action: SessionAction)
        requires
            old(self).wf(),
        ensures
            final(self).wf(),
            same_settings(*old(self), *final(self)),
            final(self).folders == old(self).folders,
            final(self).backoff == old(self).backoff,
            continue_batch(*old(self), *final(self), action),
    {
        let ghost pre = *self;
        let mut i = self.next_event;
        while i < self.events.len()
            invariant
                *self == pre,
                pre == *old(self),
                pre.wf(),
                pre.next_event <= i <= pre.events@.len(),
                next_move_from(pre, pre.next_event as int) == next_move_from(pre, i as int),
            decreases self.events.len() - i,
        {
            match self.plan_move(&self.events[i]) {
                Some((source, destination)) => {
                    self.phase = SessionPhase::AwaitMove;
                    self.next_event = i + 1;
                    return SessionAction::MoveFile { source, destination };
                },
                None => {},
            }
            i = i + 1;
        }
        if self.events.len() > 0 {
            self.since = self.events[self.events.len() - 1].id;
        }
        self.phase = SessionPhase::AwaitPoll;
        self.next_event = self.events.len();
        SessionAction::Poll { since: self.since }
    }

    /// End the session with `message`.
    fn fail(&mut self, message: String) -> (r: (SessionAction, StatusChange))
        ensures
            *final(self) == (WatchSession { phase: SessionPhase::Ended, ..*old(self) }),
            r.0 == (SessionAction::Fail { message }),
            r.1 == StatusChange::Keep,
    {
        self.phase = SessionPhase::Ended;
        (SessionAction::Fail { message }, StatusChange::Keep)
    }

    /// One step of the session: from what came of the last request, the next
    /// request and the change to the watcher's status.
    pub fn step(&mut self, reply: SessionReply) -> (r: (SessionAction, StatusChange))
        requires
            old(self).wf(),
        ensures
            final(self).wf(),
            session_step(*old(self), reply, *final(self), r.0, r.1),
    {
        let ghost pre = *self;
        if let SessionReply::SwitchedOff = reply {
            if self.phase != SessionPhase::Ended {
                self.phase = SessionPhase::Ended;
                return (SessionAction::Stop, StatusChange::Keep);
            }
        }
        match (self.phase, reply) {
            (SessionPhase::Start, SessionReply::Begin) => {
                if self.has_api_key {
                    self.phase = SessionPhase::AwaitDevices;
                    (SessionAction::FetchDevices, StatusChange::Keep)
                } else {
                    self.fail(
                        String::from_str("failed to fetch device list: ").concat(
                            "API key is required — set SYNCTHING_API_KEY or pass --api-key",
                        ),
                    )
                }
            },
            (SessionPhase::AwaitDevices, SessionReply::Devices(result)) => match result {
                Ok(_) => {
                    self.phase = SessionPhase::AwaitFolders;
                    (SessionAction::FetchFolders, StatusChange::Keep)
                },
                Err(e) => self.fail(
                    String::from_str("failed to fetch device list: ").concat(e.as_str()),
                ),
            },
            (SessionPhase::AwaitFolders, SessionReply::Folders(result)) => match result {
                Ok(folders) => {
                    self.folders = folders;
                    let i = match Self::find_folder(&self.folders, &self.source_folder_id) {
                        Some(i) => i,
                        None => {
                            let message = String::from_str("source folder '").concat(
                                self.source_folder_id.as_str(),
                            ).concat("' not found in Syncthing config");
                            return self.fail(message);
                        },
                    };
                    match expand_home(self.folders[i].path.as_str(), &self.home) {
                        Ok(root) => {
                            self.phase = SessionPhase::AwaitScan;
                            (
                                SessionAction::PreScan {
                                    root,
                                    target: self.target_directory.clone(),
                                },
                                StatusChange::Enter(WatchState::Scanning),
                            )
                        },
                        Err(e) => self.fail(e),
                    }
                },
                Err(e) => self.fail(
                    String::from_str("failed to fetch folder list: ").concat(e.as_str()),
                ),
            },
            (SessionPhase::AwaitScan, SessionReply::Scanned(result)) => match result {
                Ok(count) => {
                    self.phase = SessionPhase::AwaitSeed;
                    (SessionAction::SeedCursor, StatusChange::Moved(count))
                },
                Err(e) => self.fail(String::from_str("pre-scan move failed: ").concat(e.as_str())),
            },
            (SessionPhase::AwaitSeed, SessionReply::Seeded(result)) => match result {
                Ok(id) => {
                    if self.has_api_key {
                        self.since = id;
                        self.backoff = RETRY_MIN_SECS;
                        self.phase = SessionPhase::AwaitPoll;
                        (SessionAction::Poll { since: id }, StatusChange::Enter(WatchState::Watching))
                    } else {
                        self.fail(String::from_str(
                            "API key is required — set SYNCTHING_API_KEY or pass --api-key",
                        ))
                    }
                },
                Err(e) => self.fail(e),
            },
            (SessionPhase::AwaitPoll, SessionReply::Polled(result)) => match result {
                Ok(events) => {
                    self.events = events;
                    self.next_event = 0;
                    let action = self.continue_with_batch();
                    self.backoff = RETRY_MIN_SECS;
                    (action, StatusChange::Keep)
                },
                Err(_) => {
                    let seconds = self.backoff;
                    self.backoff = next_backoff(self.backoff);
                    self.phase = SessionPhase::AwaitSleep;
                    (SessionAction::Sleep { seconds }, StatusChange::Keep)
                },
            },
            (SessionPhase::AwaitSleep, SessionReply::Slept) => {
                self.phase = SessionPhase::AwaitPoll;
                (SessionAction::Poll { since: self.since }, StatusChange::Keep)
            },
            (SessionPhase::AwaitMove, SessionReply::Moved(result)) => {
                let change = match result {
                    Ok(true) => StatusChange::Moved(1),
                    _ => StatusChange::Keep,
                };
                let action = self.continue_with_batch();
                (action, change)
            },
            _ => self.fail(String::from_str("watch session received a reply it did not ask for")),
        }
    }
}


/// How far a session has got: it only ever moves forward, apart from the
/// cycle of polling, sleeping and moving once it is watching.
pub open spec fn phase_rank(phase: SessionPhase) -> int {
    match phase {
        SessionPhase::Start => 0,
        SessionPhase::AwaitDevices => 1,
        SessionPhase::AwaitFolders => 2,
        SessionPhase::AwaitScan => 3,
        SessionPhase::AwaitSeed => 4,
        SessionPhase::AwaitPoll => 5,
        SessionPhase::AwaitSleep => 5,
        SessionPhase::AwaitMove => 5,
        SessionPhase::Ended => 6,
    }
}

proof fn lemma_next_move_from(s: WatchSession, from: int)
    requires
        0 <= from,
    ensures
        match next_move_from(s, from) {
            Some(k) => from <= k < s.events@.len() && move_for(
                s.source_folder_id@,
                s.target_directory@,
                opt_view(s.home),
                s.folders@,
                s.events@[k],
            ) is Some,
            None => true,
        },
    decreases s.events@.len() - from,
{
    if from < s.events@.len() && move_for(
        s.source_folder_id@,
        s.target_directory@,
        opt_view(s.home),
        s.folders@,
        s.events@[from],
    ) is None {
        lemma_next_move_from(s, from + 1);
    }
}

/// Only an `ItemFinished` event for the watched folder that synced without
/// error leads to a move, and it moves the item from its place in the folder
/// to the same place under the target directory.
pub proof fn law_moves_only_finished_items(
    source_folder_id: Seq<char>,
    target: Seq<char>,
    home: Option<Seq<char>>,
    folders: Seq<Folder>,
    event: SyncThingEvent,
)
    requires
        move_for(source_folder_id, target, home, folders, event) is Some,
    ensures
        event.data matches EventData::ItemFinished(d) && d.folder@ == source_folder_id
            && d.error is None && move_for(source_folder_id, target, home, folders, event)
            .unwrap().1 == join(target, d.item@),
{
}

/// Every file a session asks to move comes from an event of the batch it is
/// working through, and only once the session is watching: never before it
/// has asked for the pre-scan of the source folder.
pub proof fn law_moves_come_from_events(
    pre: WatchSession,
    reply: SessionReply,
    post: WatchSession,
    action: SessionAction,
    change: StatusChange,
)
    requires
        pre.wf(),
        session_step(pre, reply, post, action, change),
        action is MoveFile,
    ensures
        pre.phase == SessionPhase::AwaitPoll || pre.phase == SessionPhase::AwaitMove,
        post.phase == SessionPhase::AwaitMove,
        exists|k: int|
            0 <= k < post.events@.len() && (action matches SessionAction::MoveFile {
                source,
                destination,
            } && move_for(
                post.source_folder_id@,
                post.target_directory@,
                opt_view(post.home),
                post.folders@,
                #[trigger] post.events@[k],
            ) == Some((source@, destination@))),
{
    match (pre.phase, reply) {
        (SessionPhase::AwaitPoll, SessionReply::Polled(Ok(events))) => {
            let fresh = WatchSession { events, next_event: 0, ..pre };
            lemma_next_move_from(fresh, 0);
            let k = next_move_from(fresh, 0).unwrap();
            assert(post.events@[k] == fresh.events@[k]);
        },
        (SessionPhase::AwaitMove, SessionReply::Moved(_)) => {
            lemma_next_move_from(pre, pre.next_event as int);
            let k = next_move_from(pre, pre.next_event as int).unwrap();
            assert(post.events@[k] == pre.events@[k]);
        },
        _ => {},
    }
}

/// A session only moves forward: it never goes back to an earlier phase, so
/// the pre-scan runs once per session and before any event is handled; and
/// once ended it stays ended.
pub proof fn law_phases_move_forward(
    pre: WatchSession,
    reply: SessionReply,
    post: WatchSession,
    action: SessionAction,
    change: StatusChange,
)
    requires
        pre.wf(),
        session_step(pre, reply, post, action, change),
    ensures
        phase_rank(post.phase) >= phase_rank(pre.phase),
        action is PreScan ==> pre.phase == SessionPhase::AwaitFolders,
        pre.phase == SessionPhase::Ended ==> post.phase == SessionPhase::Ended,
        post.phase == SessionPhase::Ended <==> (action is Fail || action is Stop),
        action is Stop <==> (reply is SwitchedOff && pre.phase != SessionPhase::Ended),
{
    match (pre.phase, reply) {
        (SessionPhase::AwaitPoll, SessionReply::Polled(Ok(events))) => {
            let fresh = WatchSession { events, next_event: 0, ..pre };
            assert(continue_batch(fresh, post, action));
        },
        (SessionPhase::AwaitMove, SessionReply::Moved(_)) => {
            assert(continue_batch(pre, post, action));
        },
        _ => {},
    }
}

/// Syncthing restarting or the network dropping does not end a session: a
/// failed poll is retried after a wait that doubles up to a minute, and a
/// file that cannot be moved is passed over.
pub proof fn law_transient_failures_are_survived(
    pre: WatchSession,
    reply: SessionReply,
    post: WatchSession,
    action: SessionAction,
    change: StatusChange,
)
    requires
        pre.wf(),
        session_step(pre, reply, post, action, change),
        (pre.phase == SessionPhase::AwaitPoll && reply matches SessionReply::Polled(Err(_)))
            || (pre.phase == SessionPhase::AwaitMove && reply matches SessionReply::Moved(Err(_))),
    ensures
        post.phase != SessionPhase::Ended,
        reply is Polled ==> action == (SessionAction::Sleep { seconds: pre.backoff })
            && post.backoff == next_backoff_secs(pre.backoff) && RETRY_MIN_SECS <= post.backoff
            <= RETRY_MAX_SECS,
{
    if reply is Moved {
        assert(continue_batch(pre, post, action));
    }
}

/// Switching watching off ends a running session at once, whatever it was
/// waiting for, without a failure and without asking for anything more; the
/// next session starts over with the pre-scan.
pub proof fn law_switching_off_stops(
    pre: WatchSession,
    post: WatchSession,
    action: SessionAction,
    change: StatusChange,
)
    requires
        pre.phase != SessionPhase::Ended,
        session_step(pre, SessionReply::SwitchedOff, post, action, change),
    ensures
        post.phase == SessionPhase::Ended,
        action == SessionAction::Stop,
        change == StatusChange::Keep,
{
}

/// The cursor a run of replies leaves: the ID of the event that the latest
/// seeding gave, or of the last event of the latest non-empty batch,
/// whichever came last.
pub open spec fn cursor_of(replies: Seq<SessionReply>) -> u64
    decreases replies.len(),
{
    if replies.len() == 0 {
        0
    } else {
        match replies.last() {
            SessionReply::Seeded(Ok(id)) => id,
            SessionReply::Polled(Ok(events)) if events@.len() > 0 => events@.last().id,
            _ => cursor_of(replies.drop_last()),
        }
    }
}

/// What a session knows of the replies `replies` so far: while polling or
/// sleeping its cursor is theirs, and while working through a batch that
/// batch's last event is.
pub open spec fn cursor_tracks(s: WatchSession, replies: Seq<SessionReply>) -> bool {
    &&& (s.phase == SessionPhase::AwaitPoll || s.phase == SessionPhase::AwaitSleep) ==> s.since
        == cursor_of(replies)
    &&& s.phase == SessionPhase::AwaitMove ==> s.events@.len() > 0 && s.events@.last().id
        == cursor_of(replies)
}

proof fn lemma_cursor_step(
    pre: WatchSession,
    replies: Seq<SessionReply>,
    reply: SessionReply,
    post: WatchSession,
    action: SessionAction,
    change: StatusChange,
)
    requires
        cursor_tracks(pre, replies),
        session_step(pre, reply, post, action, change),
    ensures
        cursor_tracks(post, replies.push(reply)),
        action matches SessionAction::Poll { since } ==> since == cursor_of(replies.push(reply)),
{
    let rs = replies.push(reply);
    assert(rs.drop_last() =~= replies);
    assert(rs.last() == reply);
    if !(reply is SwitchedOff && pre.phase != SessionPhase::Ended) {
        match (pre.phase, reply) {
            (SessionPhase::AwaitPoll, SessionReply::Polled(Ok(events))) => {
                let fresh = WatchSession { events, next_event: 0, ..pre };
                assert(continue_batch(fresh, post, action));
                lemma_next_move_from(fresh, 0);
            },
            (SessionPhase::AwaitMove, SessionReply::Moved(_)) => {
                assert(continue_batch(pre, post, action));
            },
            _ => {},
        }
    }
}

/// Polling resumes from the last event seen, over a whole session: the first
/// poll asks for the events after the one that seeding gave, and each later
/// poll for those after the last event of the latest non-empty batch, the
/// cursor staying put over an empty batch or a failed poll.
pub proof fn law_polls_resume_from_the_last_event(
    sessions: Seq<WatchSession>,
    replies: Seq<SessionReply>,
    actions: Seq<SessionAction>,
    changes: Seq<StatusChange>,
)
    requires
        sessions.len() == replies.len() + 1,
        actions.len() == replies.len(),
        changes.len() == replies.len(),
        sessions[0].phase == SessionPhase::Start,
        forall|i: int|
            0 <= i < replies.len() ==> session_step(
                #[trigger] sessions[i],
                replies[i],
                sessions[i + 1],
                actions[i],
                changes[i],
            ),
    ensures
        forall|i: int|
            0 <= i < replies.len() ==> ((#[trigger] actions[i]) matches SessionAction::Poll { since }
                ==> since == cursor_of(replies.take(i + 1))),
{
    assert forall|i: int| 0 <= i <= replies.len() implies cursor_tracks(
        #[trigger] sessions[i],
        replies.take(i),
    ) by {
        lemma_cursor_run(sessions, replies, actions, changes, i);
    }
    assert forall|i: int| 0 <= i < replies.len() implies ((#[trigger] actions[i]) matches SessionAction::Poll {
        since,
    } ==> since == cursor_of(replies.take(i + 1))) by {
        assert(cursor_tracks(sessions[i], replies.take(i)));
        assert(replies.take(i + 1) =~= replies.take(i).push(replies[i]));
        lemma_cursor_step(sessions[i], replies.take(i), replies[i], sessions[i + 1], actions[i], changes[i]);
    }
}

proof fn lemma_cursor_run(
    sessions: Seq<WatchSession>,
    replies: Seq<SessionReply>,
    actions: Seq<SessionAction>,
    changes: Seq<StatusChange>,
    n: int,
)
    requires
        sessions.len() == replies.len() + 1,
        actions.len() == replies.len(),
        changes.len() == replies.len(),
        sessions[0].phase == SessionPhase::Start,
        forall|i: int|
            0 <= i < replies.len() ==> session_step(
                #[trigger] sessions[i],
                replies[i],
                sessions[i + 1],
                actions[i],
                changes[i],
            ),
        0 <= n <= replies.len(),
    ensures
        cursor_tracks(sessions[n], replies.take(n)),
    decreases n,
{
    if n > 0 {
        lemma_cursor_run(sessions, replies, actions, changes, n - 1);
        assert(session_step(sessions[n - 1], replies[n - 1], sessions[n], actions[n - 1], changes[n - 1]));
        assert(replies.take(n) =~= replies.take(n - 1).push(replies[n - 1]));
        lemma_cursor_step(
            sessions[n - 1],
            replies.take(n - 1),
            replies[n - 1],
            sessions[n],
            actions[n - 1],
            changes[n - 1],
        );
    }
}

/// The moves that a batch of events asks for, in the order of the events:
/// one for each event that asks for a move, none for the others.
pub open spec fn batch_moves(
    source_folder_id: Seq<char>,
    target: Seq<char>,
    home: Option<Seq<char>>,
    folders: Seq<Folder>,
    events: Seq<SyncThingEvent>,
) -> Seq<(Seq<char>, Seq<char>)>
    decreases events.len(),
{
    if events.len() == 0 {
        Seq::empty()
    } else {
        let earlier = batch_moves(source_folder_id, target, home, folders, events.drop_last());
        match move_for(source_folder_id, target, home, folders, events.last()) {
            Some(m) => earlier.push(m),
            None => earlier,
        }
    }
}

/// The moves that `events` ask for under the settings of session `s`.
pub open spec fn moves_under(s: WatchSession, events: Seq<SyncThingEvent>) -> Seq<(Seq<char>, Seq<char>)> {
    batch_moves(s.source_folder_id@, s.target_directory@, opt_view(s.home), s.folders@, events)
}

/// Looking for the next move from position `j` of a batch either finds the
/// event that adds one move to those of the events before it, or finds that
/// the events from `j` on ask for none.
proof fn lemma_next_move_extends(s: WatchSession, j: int)
    requires
        0 <= j <= s.events@.len(),
    ensures
        match next_move_from(s, j) {
            Some(k) => j <= k < s.events@.len() && moves_under(s, s.events@.take(k + 1))
                == moves_under(s, s.events@.take(j)).push(
                move_for(
                    s.source_folder_id@,
                    s.target_directory@,
                    opt_view(s.home),
                    s.folders@,
                    s.events@[k],
                ).unwrap(),
            ),
            None => moves_under(s, s.events@) == moves_under(s, s.events@.take(j)),
        },
    decreases s.events@.len() - j,
{
    let ev = s.events@;
    if j == ev.len() {
        assert(ev.take(j) =~= ev);
    } else {
        assert(ev.take(j + 1).drop_last() =~= ev.take(j));
        assert(ev.take(j + 1).last() == ev[j]);
        if move_for(s.source_folder_id@, s.target_directory@, opt_view(s.home), s.folders@, ev[j])
            is None {
            lemma_next_move_extends(s, j + 1);
        }
    }
}

/// What is known of a batch after `n` steps of working through it: the
/// session is still at it, with the settings it started with, and the `n`
/// moves asked for so far are the moves of the events up to its position.
pub open spec fn batch_progress(
    s0: WatchSession,
    events: Seq<SyncThingEvent>,
    s: WatchSession,
    actions: Seq<SessionAction>,
    n: int,
) -> bool {
    &&& s.phase == SessionPhase::AwaitMove
    &&& s.events@ == events
    &&& s.source_folder_id@ == s0.source_folder_id@
    &&& s.target_directory@ == s0.target_directory@
    &&& opt_view(s.home) == opt_view(s0.home)
    &&& s.folders@ == s0.folders@
    &&& s.next_event <= events.len()
    &&& moves_under(s0, events.take(s.next_event as int)).len() == n
    &&& forall|m: int|
        0 <= m < n ==> (#[trigger] actions[m] matches SessionAction::MoveFile { source, destination }
            && moves_under(s0, events.take(s.next_event as int))[m] == (source@, destination@))
}

#[verifier::rlimit(30)]
proof fn lemma_batch_run(
    sessions: Seq<WatchSession>,
    replies: Seq<SessionReply>,
    actions: Seq<SessionAction>,
    changes: Seq<StatusChange>,
    events: Seq<SyncThingEvent>,
    n: int,
)
    requires
        replies.len() >= 1,
        sessions.len() == replies.len() + 1,
        actions.len() == replies.len(),
        changes.len() == replies.len(),
        sessions[0].phase == SessionPhase::AwaitPoll,
        replies[0] matches SessionReply::Polled(Ok(evs)) && evs@ == events,
        forall|i: int| 1 <= i < replies.len() ==> #[trigger] replies[i] is Moved,
        forall|i: int|
            0 <= i < replies.len() ==> session_step(
                #[trigger] sessions[i],
                replies[i],
                sessions[i + 1],
                actions[i],
                changes[i],
            ),
        forall|i: int| 0 <= i < replies.len() - 1 ==> #[trigger] actions[i] is MoveFile,
        1 <= n <= replies.len() - 1,
    ensures
        batch_progress(sessions[0], events, sessions[n], actions, n),
    decreases n,
{
    let s0 = sessions[0];
    if n == 1 {
        assert(session_step(sessions[0], replies[0], sessions[1], actions[0], changes[0]));
        assert(actions[0] is MoveFile);
        let evs = replies[0]->Polled_0->Ok_0;
        let fresh = WatchSession { events: evs, next_event: 0, ..s0 };
        assert(continue_batch(fresh, sessions[1], actions[0]));
        lemma_next_move_extends(fresh, 0);
        assert(events.take(0) =~= Seq::<SyncThingEvent>::empty());
        let k = next_move_from(fresh, 0).unwrap();
        assert(moves_under(fresh, events.take(k + 1)) == moves_under(s0, events.take(k + 1)));
    } else {
        lemma_batch_run(sessions, replies, actions, changes, events, n - 1);
        let pre = sessions[n - 1];
        assert(session_step(pre, replies[n - 1], sessions[n], actions[n - 1], changes[n - 1]));
        assert(replies[n - 1] is Moved);
        assert(actions[n - 1] is MoveFile);
        assert(continue_batch(pre, sessions[n], actions[n - 1]));
        lemma_next_move_extends(pre, pre.next_event as int);
        let k = next_move_from(pre, pre.next_event as int).unwrap();
        assert(moves_under(pre, events.take(k + 1)) == moves_under(s0, events.take(k + 1)));
        assert(moves_under(pre, events.take(pre.next_event as int)) == moves_under(
            s0,
            events.take(pre.next_event as int),
        ));
        assert forall|m: int| 0 <= m < n implies (#[trigger] actions[m] matches SessionAction::MoveFile {
            source,
            destination,
        } && moves_under(s0, events.take(sessions[n].next_event as int))[m] == (
            source@,
            destination@,
        )) by {
            if m < n - 1 {
                assert(batch_progress(s0, events, pre, actions, n - 1));
            }
        }
    }
}

/// Every file that finished syncing in a batch is moved: from the poll that
/// brings a batch to the poll that follows it, the session asks for exactly
/// the moves the batch's events ask for, one after another in their order,
/// none skipped and none repeated, whatever came of each move.
pub proof fn law_every_finished_file_of_a_batch_is_moved(
    sessions: Seq<WatchSession>,
    replies: Seq<SessionReply>,
    actions: Seq<SessionAction>,
    changes: Seq<StatusChange>,
    events: Seq<SyncThingEvent>,
)
    requires
        replies.len() >= 1,
        sessions.len() == replies.len() + 1,
        actions.len() == replies.len(),
        changes.len() == replies.len(),
        sessions[0].phase == SessionPhase::AwaitPoll,
        replies[0] matches SessionReply::Polled(Ok(evs)) && evs@ == events,
        forall|i: int| 1 <= i < replies.len() ==> #[trigger] replies[i] is Moved,
        forall|i: int|
            0 <= i < replies.len() ==> session_step(
                #[trigger] sessions[i],
                replies[i],
                sessions[i + 1],
                actions[i],
                changes[i],
            ),
        forall|i: int| 0 <= i < replies.len() - 1 ==> #[trigger] actions[i] is MoveFile,
        actions[replies.len() - 1] is Poll,
    ensures
        moves_under(sessions[0], events).len() == replies.len() - 1,
        forall|m: int|
            0 <= m < replies.len() - 1 ==> (#[trigger] actions[m] matches SessionAction::MoveFile {
                source,
                destination,
            } && moves_under(sessions[0], events)[m] == (source@, destination@)),
{
    let s0 = sessions[0];
    let last = replies.len() - 1;
    if last == 0 {
        assert(session_step(sessions[0], replies[0], sessions[1], actions[0], changes[0]));
        let evs = replies[0]->Polled_0->Ok_0;
        let fresh = WatchSession { events: evs, next_event: 0, ..s0 };
        assert(continue_batch(fresh, sessions[1], actions[0]));
        lemma_next_move_extends(fresh, 0);
        assert(events.take(0) =~= Seq::<SyncThingEvent>::empty());
        assert(moves_under(fresh, events) == moves_under(s0, events));
    } else {
        lemma_batch_run(sessions, replies, actions, changes, events, last);
        let pre = sessions[last];
        assert(batch_progress(s0, events, pre, actions, last));
        assert(session_step(pre, replies[last], sessions[last + 1], actions[last], changes[last]));
        assert(replies[last] is Moved);
        assert(continue_batch(pre, sessions[last + 1], actions[last]));
        lemma_next_move_extends(pre, pre.next_event as int);
        assert(moves_under(pre, events) == moves_under(s0, events));
        assert(moves_under(pre, events.take(pre.next_event as int)) == moves_under(
            s0,
            events.take(pre.next_event as int),
        ));
    }
}

} // verus!
