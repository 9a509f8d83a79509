//! Process states as read by the vectorised process collector.

use vstd::prelude::*;

verus! {

/// Process state.
#[derive(Debug, Clone, Copy, PartialEq, Eq, Structural, Default)]
pub enum ProcessState {
    /// Running or runnable (on run queue).
    Running,
    /// Interruptible sleep (waiting for an event); the default.
    #[default]
    Sleeping,
    /// Uninterruptible sleep (usually IO).
    DiskWait,
    /// Defunct/zombie process.
    Zombie,
    /// Stopped (on signal or by debugger).
    Stopped,
    /// Tracing stop (by debugger).
    Traced,
    /// Dead (should never be seen).
    Dead,
    /// Unknown state.
    Unknown,
}

/// The state that a `/proc/[pid]/stat` state character denotes.
pub open spec fn state_of_char(c: char) -> ProcessState {
    if c == 'R' {
        ProcessState::Running
    } else if c == 'S' {
        ProcessState::Sleeping
    } else if c == 'D' {
        ProcessState::DiskWait
    } else if c == 'Z' {
        ProcessState::Zombie
    } else if c == 'T' {
        ProcessState::Stopped
    } else if c == 't' {
        ProcessState::Traced
    } else if c == 'X' || c == 'x' {
        ProcessState::Dead
    } else {
        ProcessState::Unknown
    }
}

/// The display character of a state.
pub open spec fn char_of_state(s: ProcessState) -> char {
    match s {
        ProcessState::Running => 'R',
        ProcessState::Sleeping => 'S',
        ProcessState::DiskWait => 'D',
        ProcessState::Zombie => 'Z',
        ProcessState::Stopped => 'T',
        ProcessState::Traced => 't',
        ProcessState::Dead => 'X',
        ProcessState::Unknown => '?',
    }
}

impl ProcessState {
    /// Parses a state character from `/proc/[pid]/stat`.
    pub fn from_char(c: char) -> (s: Self)
        ensures
            s == state_of_char(c),
    {
        match c {
            'R' => ProcessState::Running,
            'S' => ProcessState::Sleeping,
            'D' => ProcessState::DiskWait,
            'Z' => ProcessState::Zombie,
            'T' => ProcessState::Stopped,
            't' => ProcessState::Traced,
            'X' | 'x' => ProcessState::Dead,
            _ => ProcessState::Unknown,
        }
    }

    /// Returns the display character.
    pub fn as_char(&self) -> (c: char)
        ensures
            c == char_of_state(*self),
    {
        match self {
            ProcessState::Running => 'R',
            ProcessState::Sleeping => 'S',
            ProcessState::DiskWait => 'D',
            ProcessState::Zombie => 'Z',
            ProcessState::Stopped => 'T',
            ProcessState::Traced => 't',
            ProcessState::Dead => 'X',
            ProcessState::Unknown => '?',
        }
    }
}

/// Every known state reads back from its display character.
pub proof fn lemma_char_round_trip(s: ProcessState)
    requires
        s != ProcessState::Unknown,
    ensures
        state_of_char(char_of_state(s)) == s,
{
}

} // verus!
