//! The commands that set and remove breakpoints.
use vstd::prelude::*;

use crate::breakpoint::{Breakpoint, SourceBreakpoint};
use crate::commands::{DebugError, DebugRequest, DebugResponse};
use crate::debug_information::{find_breakpoint_location, searchable};
use crate::debugger::execution::respond;
use crate::debugger::model::{
    after_done, after_word, next_located, places, starts, unlocated, with_unlocated,
};
use crate::debugger::protocol::{AfterDone, AfterWord, Batch, Pending, Progress, Query};
use crate::debugger::state::Debugger;

verus! {

/// Asks how many breakpoints the hardware can hold.
fn ask_units(address: u32) -> (progress: Progress)
    ensures
        progress == (Progress::Ask {
            query: Query::CountBreakpointUnits,
            then: Pending::AfterWord(AfterWord::Units { address }),
        }),
{
    Progress::Ask {
        query: Query::CountBreakpointUnits,
        then: Pending::AfterWord(AfterWord::Units { address }),
    }
}

/// Goes on to set a breakpoint for which an address was looked up.
pub fn breakpoint_found(found: Result<Option<u64>, String>) -> (progress: Progress)
    ensures
        match found {
            Ok(Some(address)) => progress == (Progress::Ask {
                query: Query::CountBreakpointUnits,
                then: Pending::AfterWord(AfterWord::Units { address: address as u32 }),
            }),
            Ok(None) => progress == Progress::Fail(DebugError::LocationNotFound),
            Err(message) => progress == Progress::Fail(DebugError::Target { message }),
        },
{
    match found {
        Ok(Some(address)) => ask_units(#[verifier::truncate] (address as u32)),
        Ok(None) => Progress::Fail(DebugError::LocationNotFound),
        Err(message) => Progress::Fail(DebugError::Target { message }),
    }
}

/// Goes on to set the next of several breakpoints, for which an address was
/// looked up. Where there is none, the breakpoint is answered, and the batch
/// comes back for the one after it.
pub fn next_found(mut batch: Batch, found: Result<Option<u64>, String>) -> (result: Result<
    Batch,
    Progress,
>)
    requires
        batch.done@.len() < batch.requested@.len(),
    ensures
        match found {
            Ok(Some(address)) => result == Err::<Batch, Progress>(
                Progress::Ask {
                    query: Query::CountBreakpointUnits,
                    then: Pending::AfterWord(AfterWord::BatchUnits { batch, address }),
                },
            ),
            Ok(None) => result matches Ok(grown) && grown.source_file == batch.source_file
                && grown.requested == batch.requested && grown.done@ == batch.done@.push(
                unlocated(batch.requested@[batch.done@.len() as int]),
            ),
            Err(message) => result == Err::<Batch, Progress>(
                Progress::Fail(DebugError::Target { message }),
            ),
        },
{
    match found {
        Ok(Some(address)) => Err(
            Progress::Ask {
                query: Query::CountBreakpointUnits,
                then: Pending::AfterWord(AfterWord::BatchUnits { batch, address }),
            },
        ),
        Ok(None) => {
            let asked = batch.requested[batch.done.len()];
            batch.done.push(Breakpoint::new(None, false, Some(asked.line), asked.column));
            Ok(batch)
        },
        Err(message) => Err(Progress::Fail(DebugError::Target { message })),
    }
}

impl<'a> Debugger<'a> {
    /// Removes all breakpoints.
    pub fn clear_all_breakpoints_command(&self) -> (progress: Progress)
        ensures
            starts(self@, DebugRequest::ClearAllBreakpoints, self@, progress),
    {
        Progress::Ask {
            query: Query::ClearAllHardwareBreakpoints,
            then: Pending::AfterDone(AfterDone::AllCleared),
        }
    }

    /// The hardware has no breakpoints any more.
    pub fn all_breakpoints_cleared(&mut self) -> (progress: Progress)
        ensures
            after_done(old(self)@, AfterDone::AllCleared, final(self)@, progress),
    {
        self.forget_breakpoints();
        respond(DebugResponse::ClearAllBreakpoints)
    }

    /// Removes the breakpoint at `address`, in the hardware too.
    pub fn clear_breakpoint_command(&mut self, address: u32) -> (progress: Progress)
        ensures
            after_done(
                old(self)@,
                AfterDone::ClearOpened { address },
                final(self)@,
                progress,
            ),
    {
        broadcast use vstd::std_specs::hash::group_hash_axioms;

        let known = self.breakpoints.remove(&address).is_some();
        assert(self@.breakpoints =~= old(self)@.breakpoints.remove(address));
        Progress::Ask {
            query: Query::ClearHardwareBreakpoint { address },
            then: Pending::AfterDone(AfterDone::Cleared { address, known }),
        }
    }

    /// Sets a breakpoint at an address, or at a line of a source file.
    pub fn set_breakpoint_command(&self, address: u32, source_file: Option<String>) -> (progress:
        Progress)
        requires
            source_file is Some ==> searchable(self@.dwarf),
        ensures
            after_done(
                self@,
                AfterDone::SetOpened { address, source_file },
                self@,
                progress,
            ),
    {
        match source_file {
            Some(path) => breakpoint_found(
                find_breakpoint_location(
                    self.debug_info.dwarf,
                    self.cwd.as_str(),
                    path.as_str(),
                    address as u64,
                    None,
                ),
            ),
            None => ask_units(address),
        }
    }

    /// Sets the breakpoint in the hardware, if it can hold another one.
    pub fn set_breakpoint_within(&self, address: u32, units: u32) -> (progress: Progress)
        ensures
            after_word(self@, AfterWord::Units { address }, units, self@, progress),
    {
        broadcast use vstd::std_specs::hash::group_hash_axioms;

        let count: u32 = #[verifier::truncate] (self.breakpoints.len() as u32);
        if count < units {
            Progress::Ask {
                query: Query::SetHardwareBreakpoint { address },
                then: Pending::AfterDone(AfterDone::BreakpointSet { address }),
            }
        } else {
            Progress::Fail(DebugError::NoBreakpointLeft)
        }
    }

    /// The hardware has the breakpoint.
    pub fn breakpoint_set(&mut self, address: u32) -> (progress: Progress)
        ensures
            after_done(
                old(self)@,
                AfterDone::BreakpointSet { address },
                final(self)@,
                progress,
            ),
    {
        broadcast use vstd::std_specs::hash::group_hash_axioms;

        let breakpoint = Breakpoint::new(Some(address as i64), true, None, None);
        let _previous = self.breakpoints.insert(address, breakpoint);
        respond(DebugResponse::SetBreakpoint)
    }

    /// Replaces all breakpoints by those of a source file.
    pub fn set_breakpoints_command(
        &self,
        source_file: String,
        source_breakpoints: Vec<SourceBreakpoint>,
    ) -> (progress: Progress)
        ensures
            starts(
                self@,
                DebugRequest::SetBreakpoints { source_file, source_breakpoints },
                self@,
                progress,
            ),
    {
        Progress::Ask {
            query: Query::ClearAllHardwareBreakpoints,
            then: Pending::AfterDone(
                AfterDone::BatchCleared {
                    batch: Batch { source_file, requested: source_breakpoints, done: vec![] },
                },
            ),
        }
    }

    /// Answers the breakpoints that belong nowhere, up to the next that
    /// belongs somewhere.
    pub fn place_next(&self, batch: Batch) -> (progress: Progress)
        requires
            batch.done@.len() <= batch.requested@.len(),
            batch.requested@.len() > 0 ==> searchable(self@.dwarf),
        ensures
            places(self@, batch.source_file, batch.requested, batch.done@, progress),
    {
        let ghost d = self@;
        let ghost first = batch.done@;
        let mut current = batch;
        assert(with_unlocated(first, current.requested@, first.len() as int) =~= first);
        while current.done.len() < current.requested.len()
            invariant
                d == self@,
                batch.requested@.len() > 0 ==> searchable(d.dwarf),
                current.source_file == batch.source_file,
                current.requested == batch.requested,
                first == batch.done@,
                first.len() <= current.done@.len() <= current.requested@.len(),
                current.done@ == with_unlocated(
                    first,
                    current.requested@,
                    current.done@.len() as int,
                ),
                next_located(d, current.source_file@, current.requested@, first.len() as int)
                    == next_located(
                    d,
                    current.source_file@,
                    current.requested@,
                    current.done@.len() as int,
                ),
            decreases current.requested@.len() - current.done@.len(),
        {
            let asked = current.requested[current.done.len()];
            let line: u64 = #[verifier::truncate] (asked.line as u64);
            let column: Option<u64> = match asked.column {
                Some(c) => Some(#[verifier::truncate] (c as u64)),
                None => None,
            };
            let found = find_breakpoint_location(
                self.debug_info.dwarf,
                self.cwd.as_str(),
                current.source_file.as_str(),
                line,
                column,
            );
            match next_found(current, found) {
                Ok(grown) => {
                    current = grown;
                    assert(current.done@ =~= with_unlocated(
                        first,
                        current.requested@,
                        current.done@.len() as int,
                    ));
                },
                Err(progress) => return progress,
            }
        }
        respond(DebugResponse::SetBreakpoints { breakpoints: current.done })
    }

    /// The hardware has no breakpoints any more: the first one is placed.
    pub fn batch_cleared(&mut self, batch: Batch) -> (progress: Progress)
        requires
            batch.done@.len() <= batch.requested@.len(),
            batch.requested@.len() > 0 ==> searchable(old(self)@.dwarf),
        ensures
            after_done(
                old(self)@,
                AfterDone::BatchCleared { batch },
                final(self)@,
                progress,
            ),
    {
        self.forget_breakpoints();
        self.place_next(batch)
    }

    /// Sets the next breakpoint in the hardware, if it can hold another one.
    pub fn place_within(&mut self, batch: Batch, address: u64, units: u32) -> (progress: Progress)
        requires
            batch.done@.len() < batch.requested@.len(),
            searchable(old(self)@.dwarf),
        ensures
            after_word(
                old(self)@,
                AfterWord::BatchUnits { batch, address },
                units,
                final(self)@,
                progress,
            ),
    {
        broadcast use vstd::std_specs::hash::group_hash_axioms;

        let Batch { source_file, requested, mut done } = batch;
        let asked = requested[done.len()];
        let id: i64 = #[verifier::truncate] (address as i64);
        if self.breakpoints.len() < units as usize {
            let place: u32 = #[verifier::truncate] (address as u32);
            let kept = Breakpoint::new(Some(id), true, Some(asked.line), asked.column);
            let _previous = self.breakpoints.insert(place, kept);
            done.push(Breakpoint::new(Some(id), true, Some(asked.line), asked.column));
            Progress::Ask {
                query: Query::SetHardwareBreakpoint { address: place },
                then: Pending::AfterDone(
                    AfterDone::BatchSet { batch: Batch { source_file, requested, done } },
                ),
            }
        } else {
            done.push(Breakpoint::new(Some(id), false, Some(asked.line), asked.column));
            self.place_next(Batch { source_file, requested, done })
        }
    }
}

} // verus!
