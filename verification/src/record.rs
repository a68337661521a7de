//! The record model: what one generation of the store holds.

use vstd::prelude::*;

verus! {

/// Fixed-layout metadata, written once per generation.
///
/// `event_count` and `size` are informational: nothing here checks them
/// against the events that are stored beside the header. `cipher_key` travels
/// with the header but is never used to open a file; the key for that is
/// always the caller's.
#[derive(Debug, Clone, Copy, PartialEq, Eq)]
pub struct Header {
    pub version: u32,
    pub event_count: u64,
    pub timestamp_resolution: u64,
    pub size: u32,
    pub record_type: u32,
    pub cipher_key: [u8; 16],
}

/// One timestamped occurrence.
#[derive(Debug, Clone, Copy, PartialEq, Eq)]
pub struct Event {
    pub timestamp: u64,
    pub polarity: bool,
}

/// The configuration block that the rest of an application reads.
#[derive(Debug, Clone, PartialEq, Eq)]
pub struct Settings {
    pub websocket_port: u16,
    pub http_port: u16,
    pub host: String,
}

/// A header as contracts see it: the key is a sequence of bytes.
pub struct HeaderView {
    pub version: u32,
    pub event_count: u64,
    pub timestamp_resolution: u64,
    pub size: u32,
    pub record_type: u32,
    pub cipher_key: Seq<u8>,
}

/// Settings as contracts see them: the host is a sequence of characters.
pub struct SettingsView {
    pub websocket_port: u16,
    pub http_port: u16,
    pub host: Seq<char>,
}

/// One generation as contracts see it.
pub struct RecordView {
    pub header: HeaderView,
    pub events: Seq<Event>,
    pub settings: SettingsView,
}

impl View for Header {
    type V = HeaderView;

    open spec fn view(&self) -> HeaderView {
        HeaderView {
            version: self.version,
            event_count: self.event_count,
            timestamp_resolution: self.timestamp_resolution,
            size: self.size,
            record_type: self.record_type,
            cipher_key: self.cipher_key@,
        }
    }
}

impl View for Settings {
    type V = SettingsView;

    open spec fn view(&self) -> SettingsView {
        SettingsView {
            websocket_port: self.websocket_port,
            http_port: self.http_port,
            host: self.host@,
        }
    }
}

/// The generation made of `header`, `events` and `settings`.
pub open spec fn record_view(header: Header, events: Seq<Event>, settings: Settings) -> RecordView {
    RecordView { header: header@, events, settings: settings@ }
}

impl Settings {
    /// An independent copy of these settings.
    pub fn duplicate(&self) -> (copy: Settings)
        ensures
            copy@ == self@,
    {
        Settings {
            websocket_port: self.websocket_port,
            http_port: self.http_port,
            host: self.host.clone(),
        }
    }
}

} // verus!
