//! The record that a node keeps from one run to the next, and its form on
//! disk.
//!
//! The file is 24 bytes: four bytes that mark it, one byte each for the
//! pruning algorithm, tracing, the fat index and the kind of mode, and two
//! numbers of eight bytes, least significant byte first, for the times that
//! the mode carries. A file of another length or without the mark counts as
//! absent; a byte that stands for nothing gives that field its default.

use vstd::prelude::*;
use vstd::bytes::{
    lemma_auto_spec_u64_to_from_le_bytes, spec_u64_from_le_bytes, spec_u64_to_le_bytes,
    u64_from_le_bytes, u64_to_le_bytes,
};
use vstd::slice::slice_subrange;
use crate::step::Mode;

verus! {

/// How the state database forgets old states.
#[derive(Clone, Copy, Debug, PartialEq, Eq, Structural)]
pub enum Algorithm {
    Archive,
    EarlyMerge,
    OverlayRecent,
    RefCounted,
}

/// What a node remembers across restarts.
#[derive(Clone, Copy, Debug, PartialEq, Eq, Structural)]
pub struct RestartState {
    pub pruning: Algorithm,
    pub tracing: bool,
    pub fat_db: bool,
    pub mode: Mode,
}

/// The length of the file.
pub const RECORD_LEN: usize = 24;

/// The byte that stands for a pruning algorithm.
pub open spec fn pruning_tag(pruning: Algorithm) -> u8 {
    match pruning {
        Algorithm::Archive => 0,
        Algorithm::EarlyMerge => 1,
        Algorithm::OverlayRecent => 2,
        Algorithm::RefCounted => 3,
    }
}

/// The pruning algorithm that a byte stands for.
pub open spec fn pruning_of(tag: u8) -> Algorithm {
    if tag == 0 {
        Algorithm::Archive
    } else if tag == 1 {
        Algorithm::EarlyMerge
    } else if tag == 3 {
        Algorithm::RefCounted
    } else {
        Algorithm::OverlayRecent
    }
}

/// The byte that stands for a flag.
pub open spec fn flag_tag(flag: bool) -> u8 {
    if flag {
        1
    } else {
        0
    }
}

/// The byte that stands for the kind of a mode.
pub open spec fn mode_tag(mode: Mode) -> u8 {
    match mode {
        Mode::Active => 0,
        Mode::Passive(_, _) => 1,
        Mode::Dark(_) => 2,
        Mode::Off => 3,
    }
}

/// The first time that a mode carries, in seconds; 0 where it has none.
pub open spec fn mode_first(mode: Mode) -> u64 {
    match mode {
        Mode::Passive(timeout, _) => timeout,
        Mode::Dark(timeout) => timeout,
        _ => 0,
    }
}

/// The second time that a mode carries, in seconds; 0 where it has none.
pub open spec fn mode_second(mode: Mode) -> u64 {
    match mode {
        Mode::Passive(_, alarm) => alarm,
        _ => 0,
    }
}

/// The mode that a byte and two times stand for.
pub open spec fn mode_of(tag: u8, first: u64, second: u64) -> Mode {
    if tag == 1 {
        Mode::Passive(first, second)
    } else if tag == 2 {
        Mode::Dark(first)
    } else if tag == 3 {
        Mode::Off
    } else {
        Mode::Active
    }
}

/// Whether `bytes` has the length and the mark of a record.
pub open spec fn is_record(bytes: Seq<u8>) -> bool {
    &&& bytes.len() == RECORD_LEN
    &&& bytes[0] == 82
    &&& bytes[1] == 83
    &&& bytes[2] == 48
    &&& bytes[3] == 49
}

impl RestartState {
    /// The record of a node that has not run before.
    pub open spec fn spec_initial() -> RestartState {
        RestartState {
            pruning: Algorithm::OverlayRecent,
            tracing: false,
            fat_db: false,
            mode: Mode::Active,
        }
    }

    /// The record of a node that has not run before.
    #[verifier::when_used_as_spec(spec_initial)]
    pub fn initial() -> (state: RestartState)
        ensures
            state == Self::spec_initial(),
    {
        RestartState {
            pruning: Algorithm::OverlayRecent,
            tracing: false,
            fat_db: false,
            mode: Mode::Active,
        }
    }

    /// The record as it stands on disk.
    pub open spec fn spec_encode(self) -> Seq<u8> {
        seq![
            82u8,
            83u8,
            48u8,
            49u8,
            pruning_tag(self.pruning),
            flag_tag(self.tracing),
            flag_tag(self.fat_db),
            mode_tag(self.mode),
        ] + spec_u64_to_le_bytes(mode_first(self.mode)) + spec_u64_to_le_bytes(
            mode_second(self.mode),
        )
    }

    /// The record that a file holds: the initial one unless the file is a
    /// record, and field by field what its bytes stand for if it is.
    pub open spec fn spec_decode(bytes: Seq<u8>) -> RestartState {
        if !is_record(bytes) {
            Self::spec_initial()
        } else {
            RestartState {
                pruning: pruning_of(bytes[4]),
                tracing: bytes[5] == 1,
                fat_db: bytes[6] == 1,
                mode: mode_of(
                    bytes[7],
                    spec_u64_from_le_bytes(bytes.subrange(8, 16)),
                    spec_u64_from_le_bytes(bytes.subrange(16, 24)),
                ),
            }
        }
    }

    /// The record as it stands on disk.
    pub fn encode(&self) -> (bytes: Vec<u8>)
        ensures
            bytes@ == self.spec_encode(),
            bytes.len() == RECORD_LEN,
    {
        let mut bytes: Vec<u8> = Vec::new();
        bytes.push(82);
        bytes.push(83);
        bytes.push(48);
        bytes.push(49);
        bytes.push(
            match self.pruning {
                Algorithm::Archive => 0,
                Algorithm::EarlyMerge => 1,
                Algorithm::OverlayRecent => 2,
                Algorithm::RefCounted => 3,
            },
        );
        bytes.push(if self.tracing { 1 } else { 0 });
        bytes.push(if self.fat_db { 1 } else { 0 });
        let (tag, first, second): (u8, u64, u64) = match self.mode {
            Mode::Active => (0, 0, 0),
            Mode::Passive(timeout, alarm) => (1, timeout, alarm),
            Mode::Dark(timeout) => (2, timeout, 0),
            Mode::Off => (3, 0, 0),
        };
        bytes.push(tag);
        let mut low = u64_to_le_bytes(first);
        let mut high = u64_to_le_bytes(second);
        bytes.append(&mut low);
        bytes.append(&mut high);
        assert(bytes@ =~= self.spec_encode());
        bytes
    }

    /// The record that a file holds. Never fails: what is no record gives
    /// the initial one.
    pub fn decode(bytes: &Vec<u8>) -> (state: RestartState)
        ensures
            state == Self::spec_decode(bytes@),
    {
        if bytes.len() != RECORD_LEN || bytes[0] != 82 || bytes[1] != 83 || bytes[2] != 48
            || bytes[3] != 49 {
            return RestartState::initial();
        }
        let first = u64_from_le_bytes(slice_subrange(bytes.as_slice(), 8, 16));
        let second = u64_from_le_bytes(slice_subrange(bytes.as_slice(), 16, 24));
        let tag = bytes[7];
        let mode = if tag == 1 {
            Mode::Passive(first, second)
        } else if tag == 2 {
            Mode::Dark(first)
        } else if tag == 3 {
            Mode::Off
        } else {
            Mode::Active
        };
        let kind = bytes[4];
        let pruning = if kind == 0 {
            Algorithm::Archive
        } else if kind == 1 {
            Algorithm::EarlyMerge
        } else if kind == 3 {
            Algorithm::RefCounted
        } else {
            Algorithm::OverlayRecent
        };
        RestartState { pruning, tracing: bytes[5] == 1, fat_db: bytes[6] == 1, mode }
    }

    /// The record to start from, given what the file held, if there was one.
    pub fn load(file: Option<&Vec<u8>>) -> (state: RestartState)
        ensures
            state == (match file {
                Some(bytes) => Self::spec_decode(bytes@),
                None => Self::spec_initial(),
            }),
    {
        match file {
            Some(bytes) => RestartState::decode(bytes),
            None => RestartState::initial(),
        }
    }

    /// Takes in what this startup settled, and gives the file to write.
    pub fn settle(&mut self, pruning: Algorithm, tracing: bool) -> (bytes: Vec<u8>)
        ensures
            *final(self) == (RestartState { pruning, tracing, ..*old(self) }),
            bytes@ == final(self).spec_encode(),
    {
        self.pruning = pruning;
        self.tracing = tracing;
        self.encode()
    }

    /// Takes in a change of mode, and gives the file to write at once.
    pub fn on_mode_change(&mut self, mode: Mode) -> (bytes: Vec<u8>)
        ensures
            *final(self) == (RestartState { mode, ..*old(self) }),
            bytes@ == final(self).spec_encode(),
    {
        self.mode = mode;
        self.encode()
    }
}

/// A record that was written is read back as it was.
pub proof fn lemma_round_trip(state: RestartState)
    ensures
        is_record(state.spec_encode()),
        RestartState::spec_decode(state.spec_encode()) == state,
{
    lemma_auto_spec_u64_to_from_le_bytes();
    let bytes = state.spec_encode();
    assert(bytes.subrange(8, 16) =~= spec_u64_to_le_bytes(mode_first(state.mode)));
    assert(bytes.subrange(16, 24) =~= spec_u64_to_le_bytes(mode_second(state.mode)));
}

/// A file that was cut short gives the initial record, as a missing one
/// does.
pub proof fn lemma_truncated_is_initial(state: RestartState, kept: int)
    requires
        0 <= kept < state.spec_encode().len(),
    ensures
        RestartState::spec_decode(state.spec_encode().take(kept)) == RestartState::spec_initial(),
{
    lemma_auto_spec_u64_to_from_le_bytes();
}

} // verus!
