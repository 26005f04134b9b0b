//! Shared server data: the status summary, registry and tag snapshots,
//! chunk coordinates, and the typed messages between a connection worker
//! and the server core.

use vstd::prelude::*;

verus! {

// ---------------------------------------------------------------------------
// Status summary, serialized to JSON at the edge of the system.
// ---------------------------------------------------------------------------

#[derive(Debug, Clone)]
pub struct VersionInfo {
    pub name: String,
    pub protocol: i32,
}

#[derive(Debug, Clone)]
pub struct PlayerSample {
    pub name: String,
    pub id: String,
}

#[derive(Debug, Clone)]
pub struct PlayerInfo {
    pub max: i32,
    pub online: i32,
    pub sample: Vec<PlayerSample>,
}

#[derive(Debug, Clone)]
pub struct DescriptionInfo {
    pub text: String,
}

#[derive(Debug, Clone)]
pub struct ServerInfo {
    pub description: DescriptionInfo,
    pub players: PlayerInfo,
    pub version: VersionInfo,
    pub favicon: String,
}

// ---------------------------------------------------------------------------
// Registry and tag snapshots.
// ---------------------------------------------------------------------------

/// One registry member: its identifier and an optional NBT payload,
/// carried as raw bytes. The loader of this design never fills the payload.
#[derive(Debug, Clone)]
pub struct RegistryEntry {
    pub id: String,
    pub data: Option<Vec<u8>>,
}

/// Spec-level mirror of [`RegistryEntry`].
#[verifier::ext_equal]
pub struct RegistryEntryView {
    pub id: Seq<char>,
    pub data: Option<Seq<u8>>,
}

impl View for RegistryEntry {
    type V = RegistryEntryView;

    open spec fn view(&self) -> RegistryEntryView {
        RegistryEntryView {
            id: self.id@,
            data: match &self.data {
                Some(d) => Some(d@),
                None => None,
            },
        }
    }
}

/// One named tag: the member identifiers it holds.
#[derive(Debug, Clone)]
pub struct TagEntryData {
    pub entries: Vec<String>,
    pub tag_name: String,
}

/// Spec-level mirror of [`TagEntryData`].
#[verifier::ext_equal]
pub struct TagEntryDataView {
    pub entries: Seq<Seq<char>>,
    pub tag_name: Seq<char>,
}

impl View for TagEntryData {
    type V = TagEntryDataView;

    open spec fn view(&self) -> TagEntryDataView {
        TagEntryDataView {
            entries: self.entries@.map_values(|s: String| s@),
            tag_name: self.tag_name@,
        }
    }
}

/// All tags of one registry, grouped under the registry's identifier.
#[derive(Debug, Clone)]
pub struct TagEntry {
    pub id: String,
    pub data: Vec<TagEntryData>,
}

/// Spec-level mirror of [`TagEntry`].
#[verifier::ext_equal]
pub struct TagEntryView {
    pub id: Seq<char>,
    pub data: Seq<TagEntryDataView>,
}

impl View for TagEntry {
    type V = TagEntryView;

    open spec fn view(&self) -> TagEntryView {
        TagEntryView {
            id: self.id@,
            data: self.data@.map_values(|d: TagEntryData| d@),
        }
    }
}

// ---------------------------------------------------------------------------
// Chunk coordinates and chunk payloads.
// ---------------------------------------------------------------------------

/// A chunk column position, in chunk coordinates.
#[derive(Debug, Clone, Copy, PartialEq, Eq, Structural)]
pub struct ChunkPos {
    pub x: i32,
    pub z: i32,
}

/// The network form of one chunk, produced by the world store: its
/// coordinates and the already-encoded section data.
#[derive(Debug, Clone)]
pub struct ChunkPayload {
    pub chunk_x: i32,
    pub chunk_z: i32,
    pub data: Vec<u8>,
}

/// Spec-level mirror of [`ChunkPayload`].
#[verifier::ext_equal]
pub struct ChunkPayloadView {
    pub chunk_x: i32,
    pub chunk_z: i32,
    pub data: Seq<u8>,
}

impl View for ChunkPayload {
    type V = ChunkPayloadView;

    open spec fn view(&self) -> ChunkPayloadView {
        ChunkPayloadView { chunk_x: self.chunk_x, chunk_z: self.chunk_z, data: self.data@ }
    }
}

// ---------------------------------------------------------------------------
// Messages between a connection worker and the server core.
// ---------------------------------------------------------------------------

/// Requests a connection worker sends to the server core.
#[derive(Debug, Clone)]
pub enum ServerMainThreadBound {
    RequestRegistryInfo,
    RequestTagInfo,
    RequestChunk(ChunkPos),
    ChatMessage { player_name: String, message: String, timestamp: i64, salt: i64 },
}

/// Spec-level mirror of [`ServerMainThreadBound`].
pub enum ServerMainThreadBoundView {
    RequestRegistryInfo,
    RequestTagInfo,
    RequestChunk(ChunkPos),
    ChatMessage { player_name: Seq<char>, message: Seq<char>, timestamp: i64, salt: i64 },
}

impl View for ServerMainThreadBound {
    type V = ServerMainThreadBoundView;

    open spec fn view(&self) -> ServerMainThreadBoundView {
        match self {
            ServerMainThreadBound::RequestRegistryInfo => {
                ServerMainThreadBoundView::RequestRegistryInfo
            },
            ServerMainThreadBound::RequestTagInfo => ServerMainThreadBoundView::RequestTagInfo,
            ServerMainThreadBound::RequestChunk(p) => ServerMainThreadBoundView::RequestChunk(*p),
            ServerMainThreadBound::ChatMessage { player_name, message, timestamp, salt } => {
                ServerMainThreadBoundView::ChatMessage {
                    player_name: player_name@,
                    message: message@,
                    timestamp: *timestamp,
                    salt: *salt,
                }
            },
        }
    }
}

/// Messages the server core sends to a connection worker.
#[derive(Debug, Clone)]
pub enum ServerConnectionThreadBound {
    RegistryInfo { registry_id: String, entries: Vec<RegistryEntry> },
    RegistryInfoFinished,
    TagInfo(Vec<TagEntry>),
    ChunkData(Option<ChunkPayload>),
    ChatMessage { player_name: String, message: String, timestamp: i64, salt: i64 },
}

/// Spec-level mirror of [`ServerConnectionThreadBound`].
pub enum ServerConnectionThreadBoundView {
    RegistryInfo { registry_id: Seq<char>, entries: Seq<RegistryEntryView> },
    RegistryInfoFinished,
    TagInfo(Seq<TagEntryView>),
    ChunkData(Option<ChunkPayloadView>),
    ChatMessage { player_name: Seq<char>, message: Seq<char>, timestamp: i64, salt: i64 },
}

impl View for ServerConnectionThreadBound {
    type V = ServerConnectionThreadBoundView;

    open spec fn view(&self) -> ServerConnectionThreadBoundView {
        match self {
            ServerConnectionThreadBound::RegistryInfo { registry_id, entries } => {
                ServerConnectionThreadBoundView::RegistryInfo {
                    registry_id: registry_id@,
                    entries: entries@.map_values(|e: RegistryEntry| e@),
                }
            },
            ServerConnectionThreadBound::RegistryInfoFinished => {
                ServerConnectionThreadBoundView::RegistryInfoFinished
            },
            ServerConnectionThreadBound::TagInfo(tags) => {
                ServerConnectionThreadBoundView::TagInfo(tags@.map_values(|t: TagEntry| t@))
            },
            ServerConnectionThreadBound::ChunkData(c) => {
                ServerConnectionThreadBoundView::ChunkData(
                    match c {
                        Some(p) => Some(p@),
                        None => None,
                    },
                )
            },
            ServerConnectionThreadBound::ChatMessage { player_name, message, timestamp, salt } => {
                ServerConnectionThreadBoundView::ChatMessage {
                    player_name: player_name@,
                    message: message@,
                    timestamp: *timestamp,
                    salt: *salt,
                }
            },
        }
    }
}

} // verus!
