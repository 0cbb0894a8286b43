use tidysync::client::{
    endpoint_url, expand_home, latest_event_id, next_backoff, poll_url, require_api_key, seed_url,
    SessionAction, SessionPhase, SessionReply, WatchSession, RETRY_MAX_SECS,
};
use tidysync::types::{Device, EventData, Folder, ItemAction, ItemFinishedData, ItemType, SyncThingEvent, SystemStatus};
use tidysync::watcher::{StatusChange, WatchState};

#[test]
fn builds_the_request_urls() {
    assert_eq!(endpoint_url("http://localhost:8384", "/rest/system/ping"), "http://localhost:8384/rest/system/ping");
    assert_eq!(
        poll_url("http://h", 17),
        "http://h/rest/events?events=ItemFinished,DeviceConnected,DeviceDisconnected,DevicePaused,DeviceResumed&since=17"
    );
    assert_eq!(
        seed_url("http://h"),
        "http://h/rest/events?since=0&limit=1&events=ItemFinished,DeviceConnected,DeviceDisconnected,DevicePaused,DeviceResumed"
    );
}

#[test]
fn a_missing_api_key_is_an_error() {
    assert_eq!(require_api_key(&Some("k".to_string())), Ok("k".to_string()));
    assert_eq!(
        require_api_key(&None),
        Err("API key is required — set SYNCTHING_API_KEY or pass --api-key".to_string())
    );
}

#[test]
fn expands_a_leading_tilde() {
    let home = Some("/home/me".to_string());
    assert_eq!(expand_home("~/Sync", &home), Ok("/home/me/Sync".to_string()));
    assert_eq!(expand_home("/srv/Sync", &home), Ok("/srv/Sync".to_string()));
    assert_eq!(expand_home("~Sync", &home), Ok("~Sync".to_string()));
    assert_eq!(expand_home("~/Sync", &None), Err("could not determine home directory".to_string()));
    assert_eq!(expand_home("/srv", &None), Ok("/srv".to_string()));
}

fn event(id: u64, folder: &str, item: &str, error: Option<&str>) -> SyncThingEvent {
    SyncThingEvent {
        id,
        global_id: None,
        event_type: "ItemFinished".to_string(),
        data: EventData::ItemFinished(ItemFinishedData {
            folder: folder.to_string(),
            item: item.to_string(),
            action: ItemAction::Update,
            error: error.map(|e| e.to_string()),
            item_type: ItemType::File,
        }),
    }
}

#[test]
fn the_seed_is_the_last_event() {
    assert_eq!(latest_event_id(&vec![]), 0);
    assert_eq!(latest_event_id(&vec![event(3, "f", "a", None), event(9, "f", "b", None)]), 9);
}

#[test]
fn backoff_doubles_up_to_a_minute() {
    let mut secs = 1;
    let mut seen = vec![];
    for _ in 0..8 {
        seen.push(secs);
        secs = next_backoff(secs);
    }
    assert_eq!(seen, vec![1, 2, 4, 8, 16, 32, 60, 60]);
    assert_eq!(next_backoff(RETRY_MAX_SECS), RETRY_MAX_SECS);
}

fn started_session() -> WatchSession {
    let mut s = WatchSession::new("src".to_string(), "/target".to_string(), Some("/home/me".to_string()), true);
    assert!(matches!(s.step(SessionReply::Begin).0, SessionAction::FetchDevices));
    let devices = vec![Device { device_id: "D1".to_string(), name: "laptop".to_string() }];
    assert!(matches!(s.step(SessionReply::Devices(Ok(devices))).0, SessionAction::FetchFolders));
    let folders = vec![
        Folder { id: "other".to_string(), label: "O".to_string(), path: "/other".to_string() },
        Folder { id: "src".to_string(), label: "S".to_string(), path: "~/Sync".to_string() },
    ];
    let (action, change) = s.step(SessionReply::Folders(Ok(folders)));
    assert_eq!(action, SessionAction::PreScan { root: "/home/me/Sync".to_string(), target: "/target".to_string() });
    assert!(matches!(change, StatusChange::Enter(WatchState::Scanning)));
    let (action, change) = s.step(SessionReply::Scanned(Ok(2)));
    assert_eq!(action, SessionAction::SeedCursor);
    assert!(matches!(change, StatusChange::Moved(2)));
    let (action, change) = s.step(SessionReply::Seeded(Ok(40)));
    assert_eq!(action, SessionAction::Poll { since: 40 });
    assert!(matches!(change, StatusChange::Enter(WatchState::Watching)));
    s
}

#[test]
fn a_session_moves_finished_items_of_its_folder_only() {
    let mut s = started_session();
    let batch = vec![
        event(41, "other", "x.txt", None),
        event(42, "src", "a/b.txt", None),
        event(43, "src", "broken.txt", Some("permission denied")),
        SyncThingEvent { id: 44, global_id: None, event_type: "DeviceConnected".to_string(), data: EventData::Other },
        event(45, "src", "c.txt", None),
    ];
    let (action, _) = s.step(SessionReply::Polled(Ok(batch)));
    assert_eq!(action, SessionAction::MoveFile {
        source: "/home/me/Sync/a/b.txt".to_string(),
        destination: "/target/a/b.txt".to_string(),
    });
    let (action, change) = s.step(SessionReply::Moved(Ok(true)));
    assert!(matches!(change, StatusChange::Moved(1)));
    assert_eq!(action, SessionAction::MoveFile {
        source: "/home/me/Sync/c.txt".to_string(),
        destination: "/target/c.txt".to_string(),
    });
    // A failed move does not end the session; the cursor moves past the batch.
    let (action, change) = s.step(SessionReply::Moved(Err("denied".to_string())));
    assert!(matches!(change, StatusChange::Keep));
    assert_eq!(action, SessionAction::Poll { since: 45 });
    let (action, _) = s.step(SessionReply::Polled(Ok(vec![])));
    assert_eq!(action, SessionAction::Poll { since: 45 });
}

#[test]
fn a_failed_poll_backs_off_and_retries() {
    let mut s = started_session();
    let mut waits = vec![];
    for _ in 0..8 {
        match s.step(SessionReply::Polled(Err("connection refused".to_string()))).0 {
            SessionAction::Sleep { seconds } => waits.push(seconds),
            other => panic!("unexpected {other:?}"),
        }
        assert_eq!(s.step(SessionReply::Slept).0, SessionAction::Poll { since: 40 });
    }
    assert_eq!(waits, vec![1, 2, 4, 8, 16, 32, 60, 60]);
    s.step(SessionReply::Polled(Ok(vec![])));
    assert!(matches!(s.step(SessionReply::Polled(Err("again".to_string()))).0, SessionAction::Sleep { seconds: 1 }));
}

#[test]
fn a_session_fails_when_its_folder_is_missing() {
    let mut s = WatchSession::new("gone".to_string(), "/t".to_string(), None, true);
    s.step(SessionReply::Begin);
    s.step(SessionReply::Devices(Ok(vec![])));
    let (action, _) = s.step(SessionReply::Folders(Ok(vec![])));
    assert_eq!(action, SessionAction::Fail { message: "source folder 'gone' not found in Syncthing config".to_string() });
    assert_eq!(s.phase, SessionPhase::Ended);
}

#[test]
fn a_session_reports_each_failure_with_its_context() {
    let mut s = WatchSession::new("f".to_string(), "/t".to_string(), None, true);
    s.step(SessionReply::Begin);
    assert_eq!(
        s.step(SessionReply::Devices(Err("boom".to_string()))).0,
        SessionAction::Fail { message: "failed to fetch device list: boom".to_string() }
    );
    let mut s = WatchSession::new("f".to_string(), "/t".to_string(), None, true);
    s.step(SessionReply::Begin);
    s.step(SessionReply::Devices(Ok(vec![])));
    assert_eq!(
        s.step(SessionReply::Folders(Err("boom".to_string()))).0,
        SessionAction::Fail { message: "failed to fetch folder list: boom".to_string() }
    );
    let mut s = WatchSession::new("f".to_string(), "/t".to_string(), None, true);
    s.step(SessionReply::Begin);
    s.step(SessionReply::Devices(Ok(vec![])));
    let folders = vec![Folder { id: "f".to_string(), label: String::new(), path: "~/f".to_string() }];
    assert_eq!(
        s.step(SessionReply::Folders(Ok(folders))).0,
        SessionAction::Fail { message: "could not determine home directory".to_string() }
    );
    let mut s = WatchSession::new("f".to_string(), "/t".to_string(), None, true);
    s.step(SessionReply::Begin);
    s.step(SessionReply::Devices(Ok(vec![])));
    let folders = vec![Folder { id: "f".to_string(), label: String::new(), path: "/f".to_string() }];
    s.step(SessionReply::Folders(Ok(folders)));
    assert_eq!(
        s.step(SessionReply::Scanned(Err("bad".to_string()))).0,
        SessionAction::Fail { message: "pre-scan move failed: bad".to_string() }
    );
    // Without an API key the very first request fails, before anything is
    // swept.
    let mut s = WatchSession::new("f".to_string(), "/t".to_string(), None, false);
    assert_eq!(
        s.step(SessionReply::Begin).0,
        SessionAction::Fail {
            message: "failed to fetch device list: API key is required — set SYNCTHING_API_KEY or pass --api-key"
                .to_string()
        }
    );
    assert_eq!(s.phase, SessionPhase::Ended);
    assert_eq!(
        s.step(SessionReply::Slept).0,
        SessionAction::Fail { message: "watch session received a reply it did not ask for".to_string() }
    );
}

#[test]
fn switching_off_stops_a_session_between_moves() {
    let mut s = started_session();
    let batch = vec![event(41, "src", "a.txt", None), event(42, "src", "b.txt", None)];
    assert!(matches!(s.step(SessionReply::Polled(Ok(batch))).0, SessionAction::MoveFile { .. }));
    let (action, change) = s.step(SessionReply::SwitchedOff);
    assert_eq!(action, SessionAction::Stop);
    assert!(matches!(change, StatusChange::Keep));
    assert_eq!(s.phase, SessionPhase::Ended);
    let mut s = WatchSession::new("f".to_string(), "/t".to_string(), None, true);
    s.step(SessionReply::Begin);
    assert_eq!(s.step(SessionReply::SwitchedOff).0, SessionAction::Stop);
}

#[test]
fn listing_lines() {
    let f = Folder { id: "a".to_string(), label: "A".to_string(), path: "/p".to_string() };
    assert_eq!(f.line(), "ID: a, Label: A, Path: /p");
    let d = Device { device_id: "D".to_string(), name: "n".to_string() };
    assert_eq!(d.line(), "ID: D, Name: n");
    let s = SystemStatus { my_id: "ME".to_string(), uptime: 61 };
    assert_eq!(s.lines(), ("Device ID: ME".to_string(), "Uptime: 61 seconds".to_string()));
    assert_eq!(ItemAction::Metadata.to_string(), "metadata");
    assert_eq!(ItemAction::Update.to_string(), "update");
    assert_eq!(ItemAction::Delete.to_string(), "delete");
}
