//! Core of a persistent file-name index: a catalog of volumes and file
//! records kept consistent with the live filesystem through bulk ingest,
//! change-journal polling, scheduled rescans and volume lifecycle events.

use vstd::prelude::*;

pub mod config;
pub mod db;
pub mod ext;
pub mod fatwalk;
pub mod fmt;
pub mod ipc;
pub mod lifecycle;
pub mod reconciler;
pub mod search;
pub mod usn;
pub mod volume;

verus! {

/// Lifecycle state of an indexed volume.
#[derive(Debug, Clone, Copy, PartialEq, Eq, Structural)]
pub enum VolumeState {
    /// Volume mounted and actively monitored.
    Online,
    /// Volume unmounted, data preserved; `since` is the epoch second of the
    /// transition.
    Offline { since: i64 },
    /// Initial indexing in progress.
    Indexing,
    /// Background rescan in progress (after journal wrap or reconnect).
    Rescanning,
    /// Configured but not enabled for indexing.
    Disabled,
}

impl VolumeState {
    /// Parse a volume state from its stored string form; unknown strings
    /// fall back to `Online`.
    pub fn from_db(state_str: &str, offline_since: Option<i64>) -> (r: Self)
        ensures
            r == VolumeState::spec_from_db(state_str@, offline_since),
    {
        proof {
            reveal_strlit("online");
            reveal_strlit("offline");
            reveal_strlit("indexing");
            reveal_strlit("rescanning");
            reveal_strlit("disabled");
        }
        if state_str.eq("offline") {
            match offline_since {
                Some(s) => VolumeState::Offline { since: s },
                None => VolumeState::Offline { since: 0 },
            }
        } else if state_str.eq("indexing") {
            VolumeState::Indexing
        } else if state_str.eq("rescanning") {
            VolumeState::Rescanning
        } else if state_str.eq("disabled") {
            VolumeState::Disabled
        } else {
            VolumeState::Online
        }
    }

    /// The stored string form each state maps to.
    pub open spec fn spec_from_db(s: Seq<char>, offline_since: Option<i64>) -> VolumeState {
        if s == "offline"@ {
            VolumeState::Offline {
                since: match offline_since {
                    Some(t) => t,
                    None => 0,
                },
            }
        } else if s == "indexing"@ {
            VolumeState::Indexing
        } else if s == "rescanning"@ {
            VolumeState::Rescanning
        } else if s == "disabled"@ {
            VolumeState::Disabled
        } else {
            VolumeState::Online
        }
    }

    /// String form under which the state is stored.
    pub fn to_db_str(&self) -> (r: &'static str)
        ensures
            r@ == self.spec_db_str(),
    {
        match self {
            VolumeState::Online => "online",
            VolumeState::Offline { .. } => "offline",
            VolumeState::Indexing => "indexing",
            VolumeState::Rescanning => "rescanning",
            VolumeState::Disabled => "disabled",
        }
    }

    pub open spec fn spec_db_str(self) -> Seq<char> {
        match self {
            VolumeState::Online => "online"@,
            VolumeState::Offline { .. } => "offline"@,
            VolumeState::Indexing => "indexing"@,
            VolumeState::Rescanning => "rescanning"@,
            VolumeState::Disabled => "disabled"@,
        }
    }

    /// The `offline_since` timestamp when the state is `Offline`.
    pub fn offline_since(&self) -> (r: Option<i64>)
        ensures
            r == self.spec_offline_since(),
    {
        match self {
            VolumeState::Offline { since } => Some(*since),
            _ => None,
        }
    }
}

/// Storing a state and reading it back yields the same state.
pub proof fn lemma_state_db_roundtrip(s: VolumeState)
    ensures
        VolumeState::spec_from_db(s.spec_db_str(), s.spec_offline_since()) == s,
{
    reveal_strlit("online");
    reveal_strlit("offline");
    reveal_strlit("indexing");
    reveal_strlit("rescanning");
    reveal_strlit("disabled");
    assert("online"@.len() == 6);
    assert("offline"@.len() == 7);
    assert("indexing"@.len() == 8);
    assert("rescanning"@.len() == 10);
    assert("disabled"@.len() == 8);
    assert("indexing"@[0] != "disabled"@[0]);
}

impl VolumeState {
    pub open spec fn spec_offline_since(self) -> Option<i64> {
        match self {
            VolumeState::Offline { since } => Some(since),
            _ => None,
        }
    }
}

/// Failure modes of the indexing core.
#[derive(Debug, Clone, PartialEq, Eq)]
pub enum FFIError {
    /// Service-shell errors.
    Service(String),
    /// Catalog storage errors.
    Database(String),
    /// Ingest errors (volume scanning).
    Indexer(String),
    /// Configuration errors.
    Config(String),
    /// I/O errors.
    Io(String),
    /// Interprocess-communication errors.
    Ipc(String),
    /// Search-query parse errors.
    Search(String),
}

impl FFIError {
    /// The error's message text.
    pub fn message(&self) -> (r: &String)
        ensures
            r@ == self.spec_message(),
    {
        match self {
            FFIError::Service(m) => m,
            FFIError::Database(m) => m,
            FFIError::Indexer(m) => m,
            FFIError::Config(m) => m,
            FFIError::Io(m) => m,
            FFIError::Ipc(m) => m,
            FFIError::Search(m) => m,
        }
    }

    pub open spec fn spec_message(self) -> Seq<char> {
        match self {
            FFIError::Service(m) => m@,
            FFIError::Database(m) => m@,
            FFIError::Indexer(m) => m@,
            FFIError::Config(m) => m@,
            FFIError::Io(m) => m@,
            FFIError::Ipc(m) => m@,
            FFIError::Search(m) => m@,
        }
    }
}

} // verus!
