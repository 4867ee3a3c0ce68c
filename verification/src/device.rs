//! What the device tools learn about a tablet: that it was plugged in or
//! out, and what its document files say.

use crate::attr::Timestamp;
use vstd::prelude::*;

verus! {

/// A tablet came or went, on the USB bus with the given number.
#[derive(Clone, Copy, Debug, PartialEq, Eq, Structural)]
pub enum DeviceEvent {
    /// A tablet was plugged in.
    Connection(u8),
    /// A tablet was unplugged.
    Disconnection(u8),
}

impl DeviceEvent {
    /// The event for a tablet that arrived on bus `bus`.
    pub fn arrived(bus: u8) -> (event: DeviceEvent)
        ensures
            event == DeviceEvent::Connection(bus),
    {
        DeviceEvent::Connection(bus)
    }

    /// The event for a tablet that left bus `bus`.
    pub fn left(bus: u8) -> (event: DeviceEvent)
        ensures
            event == DeviceEvent::Disconnection(bus),
    {
        DeviceEvent::Disconnection(bus)
    }

    /// The number of the bus that the event happened on.
    pub fn bus(&self) -> (bus: u8)
        ensures
            bus == match *self {
                DeviceEvent::Connection(b) => b,
                DeviceEvent::Disconnection(b) => b,
            },
    {
        match *self {
            DeviceEvent::Connection(b) => b,
            DeviceEvent::Disconnection(b) => b,
        }
    }
}

/// What a document's content file says.
#[derive(Clone, Debug, PartialEq, Eq)]
pub struct RmkContent {
    /// Format of the document.
    pub file_type: Option<String>,
    /// Number of pages.
    pub page_count: Option<usize>,
    /// Identifiers of the pages, in order.
    pub pages: Vec<String>,
    /// Orientation of the pages.
    pub orientation: String,
}

/// What a document's metadata file says.
#[derive(Clone, Debug, PartialEq, Eq)]
pub struct RmkMetadata {
    /// Whether the document was deleted.
    pub _deleted: bool,
    /// When the document was last modified.
    pub last_modified: Timestamp,
    /// Whether the metadata was modified since the last sync.
    pub _metadatamodified: bool,
    /// Whether the document was modified since the last sync.
    pub _modified: bool,
    /// Identifier of the folder that holds the document; none at the top.
    pub parent: Option<String>,
    /// Whether the document is pinned.
    pub _pinned: bool,
    /// Whether the document was synced.
    pub _synced: bool,
    /// Kind of the entry.
    pub typ: String,
    /// Version of the document.
    pub _version: usize,
    /// Name shown to the user.
    pub visible_name: String,
}

} // verus!
