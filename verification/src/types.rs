//! The values the Syncthing REST API hands back, as the library reads them.
use vstd::prelude::*;

use crate::text::{decimal, decimal_text};

verus! {

/// `/rest/system/status`.
#[derive(Debug, Default, Clone, PartialEq, Eq)]
pub struct SystemStatus {
    pub my_id: String,
    pub uptime: u64,
}

/// One entry of `/rest/config/devices`.
#[derive(Debug, Default, Clone, PartialEq, Eq)]
pub struct Device {
    pub device_id: String,
    pub name: String,
}

/// One entry of `/rest/config/folders`.
#[derive(Debug, Default, Clone, PartialEq, Eq)]
pub struct Folder {
    pub id: String,
    pub label: String,
    pub path: String,
}

/// The payload of an event: the one kind the watcher acts on, or anything else.
#[derive(Debug, Clone, PartialEq, Eq)]
pub enum EventData {
    ItemFinished(ItemFinishedData),
    Other,
}

impl Default for EventData {
    fn default() -> (d: Self)
        ensures
            d is Other,
    {
        EventData::Other
    }
}

/// One entry of `/rest/events`.
#[derive(Debug, Default, Clone, PartialEq, Eq)]
pub struct SyncThingEvent {
    pub id: u64,
    pub global_id: Option<u64>,
    pub event_type: String,
    pub data: EventData,
}

/// What happened to a synced item.
#[derive(Debug, Default, Clone, Copy, PartialEq, Eq)]
pub enum ItemAction {
    #[default]
    Update,
    Delete,
    Metadata,
}

/// The name Syncthing uses for an action.
pub open spec fn action_name(action: ItemAction) -> Seq<char> {
    match action {
        ItemAction::Update => "update"@,
        ItemAction::Delete => "delete"@,
        ItemAction::Metadata => "metadata"@,
    }
}

impl ItemAction {
    /// The action as Syncthing names it: `update`, `delete` or `metadata`.
    pub fn to_string(&self) -> (s: String)
        ensures
            s@ == action_name(*self),
    {
        match self {
            ItemAction::Update => String::from_str("update"),
            ItemAction::Delete => String::from_str("delete"),
            ItemAction::Metadata => String::from_str("metadata"),
        }
    }
}

/// The kind of item that finished syncing.
#[derive(Debug, Default, Clone, Copy, PartialEq, Eq)]
pub enum ItemType {
    #[default]
    File,
    Directory,
}

/// The data of an `ItemFinished` event.
#[derive(Debug, Default, Clone, PartialEq, Eq)]
pub struct ItemFinishedData {
    pub folder: String,
    pub item: String,
    pub action: ItemAction,
    pub error: Option<String>,
    pub item_type: ItemType,
}

impl SystemStatus {
    /// The two lines the `status` command prints: the device ID and the
    /// uptime in seconds.
    pub fn lines(&self) -> (r: (String, String))
        ensures
            r.0@ == "Device ID: "@ + self.my_id@,
            r.1@ == "Uptime: "@ + decimal(self.uptime as nat) + " seconds"@,
    {
        (
            String::from_str("Device ID: ").concat(self.my_id.as_str()),
            String::from_str("Uptime: ").concat(decimal_text(self.uptime).as_str()).concat(
                " seconds",
            ),
        )
    }
}

impl Folder {
    /// How a folder is listed: its ID, label and path.
    pub fn line(&self) -> (r: String)
        ensures
            r@ == "ID: "@ + self.id@ + ", Label: "@ + self.label@ + ", Path: "@ + self.path@,
    {
        String::from_str("ID: ").concat(self.id.as_str()).concat(", Label: ").concat(
            self.label.as_str(),
        ).concat(", Path: ").concat(self.path.as_str())
    }
}

impl Device {
    /// How a device is listed: its ID and name.
    pub fn line(&self) -> (r: String)
        ensures
            r@ == "ID: "@ + self.device_id@ + ", Name: "@ + self.name@,
    {
        String::from_str("ID: ").concat(self.device_id.as_str()).concat(", Name: ").concat(
            self.name.as_str(),
        )
    }
}

} // verus!
