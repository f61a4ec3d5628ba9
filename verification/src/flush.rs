//! The debounced, coalescing flusher: a boolean dirty flag and one sliding
//! deadline. The shell runs the timer and the save; this state machine
//! decides when a save happens.

use vstd::prelude::*;

verus! {

/// What the cache sends the flusher.
#[derive(Debug, Clone, Copy, PartialEq, Eq, Structural)]
pub enum FlushCommand {
    Dirty,
    Shutdown,
}

/// What the flusher tells its driver to do next.
#[derive(Debug, Clone, Copy, PartialEq, Eq, Structural)]
pub enum FlushDirective {
    Wait,
    Save,
    SaveAndStop,
    Stop,
}

/// The flusher's whole state: whether a save is owed, and when.
#[derive(Debug, Clone, Copy, PartialEq, Eq, Structural)]
pub struct FlusherState {
    pub dirty: bool,
    pub deadline_ms: Option<u64>,
}

impl FlusherState {
    /// A fresh flusher: clean, with no deadline.
    pub fn new() -> (r: Self)
        ensures
            !r.dirty,
            r.deadline_ms is None,
    {
        FlusherState { dirty: false, deadline_ms: None }
    }

    /// Handles one command (or the channel closing, as `None`): a dirty mark
    /// starts or RESETS the deadline one debounce window from now, so bursts
    /// coalesce into one save; shutdown or closure saves once if a save is
    /// owed, then stops.
    pub fn on_command(&mut self, command: Option<FlushCommand>, now_ms: u64, debounce_ms: u64)
        -> (directive: FlushDirective)
        ensures
            match command {
                Some(FlushCommand::Dirty) => {
                    &&& directive == FlushDirective::Wait
                    &&& final(self).dirty
                    &&& final(self).deadline_ms == Some(now_ms.saturating_add(debounce_ms))
                },
                Some(FlushCommand::Shutdown) | None => {
                    &&& directive == if old(self).dirty {
                        FlushDirective::SaveAndStop
                    } else {
                        FlushDirective::Stop
                    }
                    &&& *final(self) == *old(self)
                },
            },
    {
        match command {
            Some(FlushCommand::Dirty) => {
                self.dirty = true;
                self.deadline_ms = Some(now_ms.saturating_add(debounce_ms));
                FlushDirective::Wait
            },
            Some(FlushCommand::Shutdown) => {
                if self.dirty {
                    FlushDirective::SaveAndStop
                } else {
                    FlushDirective::Stop
                }
            },
            None => {
                if self.dirty {
                    FlushDirective::SaveAndStop
                } else {
                    FlushDirective::Stop
                }
            },
        }
    }

    /// Handles an elapsed deadline: exactly one save when a save is owed,
    /// and the deadline clears either way.
    pub fn on_deadline(&mut self) -> (directive: FlushDirective)
        ensures
            final(self).deadline_ms is None,
            directive == if old(self).dirty {
                FlushDirective::Save
            } else {
                FlushDirective::Wait
            },
            !final(self).dirty,
    {
        let was_dirty = self.dirty;
        self.dirty = false;
        self.deadline_ms = None;
        if was_dirty {
            FlushDirective::Save
        } else {
            FlushDirective::Wait
        }
    }
}

} // verus!
