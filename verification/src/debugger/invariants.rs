//! What every step of a session keeps.
use vstd::prelude::*;

use crate::breakpoint::{Breakpoint, SourceBreakpoint};
use crate::commands::{Command, DebugError, DebugRequest, DebugResponse};
use crate::debug_information::searchable;
use crate::debugger::model::{
    address_breakpoint, fits, goes_on, located, location_of, next_located, places, remains_fit,
    serves, starts, unlocated, with_unlocated,
};
use crate::debugger::protocol::{AfterDone, AfterWord, Pending, Progress, Reply};
use crate::debugger::state::{stands_at, DebuggerView};

verus! {

/// The answer to the breakpoint: its position is the one asked for, it has the
/// address where it belongs, and it is set only where it belongs somewhere.
pub open spec fn answers(
    d: DebuggerView,
    source_file: Seq<char>,
    requested: SourceBreakpoint,
    answer: Breakpoint,
) -> bool {
    match location_of(d, source_file, requested) {
        None => false,
        Some(None) => answer == unlocated(requested),
        Some(Some(address)) => answer == located(requested, address, answer.verified),
    }
}

/// The breakpoints in `done` answer the first of those requested, and those of
/// them that are set are the ones that the session keeps.
pub open spec fn batch_fits(
    d: DebuggerView,
    source_file: Seq<char>,
    requested: Seq<SourceBreakpoint>,
    done: Seq<Breakpoint>,
) -> bool {
    &&& done.len() <= requested.len()
    &&& forall|i: int|
        0 <= i < done.len() ==> answers(d, source_file, requested[i], #[trigger] done[i])
    &&& forall|address: u32| #[trigger]
        d.breakpoints.contains_key(address) <==> exists|i: int|
            0 <= i < done.len() && stands_at(#[trigger] done[i], address)
}

/// The number of a breakpoint, cut to 32 bits, is its address cut to 32 bits.
proof fn lemma_id_is_address(address: u64)
    ensures
        (address as i64) as u32 == address as u32,
{
    assert((address as i64) as u32 == address as u32) by (bit_vector);
}

/// The same for an address of 32 bits.
proof fn lemma_short_id_is_address(address: u32)
    ensures
        (address as i64) as u32 == address,
{
    assert((address as i64) as u32 == address) by (bit_vector);
}

/// The breakpoints before the next located one belong nowhere.
pub(crate) proof fn lemma_next_located(
    d: DebuggerView,
    source_file: Seq<char>,
    requested: Seq<SourceBreakpoint>,
    from: int,
)
    requires
        0 <= from <= requested.len(),
    ensures
        from <= next_located(d, source_file, requested, from) <= requested.len(),
        forall|i: int|
            from <= i < next_located(d, source_file, requested, from) ==> location_of(
                d,
                source_file,
                #[trigger] requested[i],
            ) == Some(None::<u64>),
        next_located(d, source_file, requested, from) < requested.len() ==> location_of(
            d,
            source_file,
            requested[next_located(d, source_file, requested, from)],
        ) != Some(None::<u64>),
    decreases requested.len() - from,
{
    if from < requested.len() && location_of(d, source_file, requested[from]) == Some(
        None::<u64>,
    ) {
        lemma_next_located(d, source_file, requested, from + 1);
    }
}

/// Answering a breakpoint that is not set leaves the others answered.
proof fn lemma_unset_answer_fits(
    d: DebuggerView,
    source_file: Seq<char>,
    requested: Seq<SourceBreakpoint>,
    done: Seq<Breakpoint>,
    answer: Breakpoint,
)
    requires
        batch_fits(d, source_file, requested, done),
        done.len() < requested.len(),
        answers(d, source_file, requested[done.len() as int], answer),
        !answer.verified,
    ensures
        batch_fits(d, source_file, requested, done.push(answer)),
{
    let grown = done.push(answer);
    assert forall|address: u32| #[trigger] d.breakpoints.contains_key(address) <==> exists|i: int|
        0 <= i < grown.len() && stands_at(#[trigger] grown[i], address) by {
        if d.breakpoints.contains_key(address) {
            let i = choose|i: int| 0 <= i < done.len() && stands_at(#[trigger] done[i], address);
            assert(grown[i] == done[i]);
        }
        if exists|i: int| 0 <= i < grown.len() && stands_at(#[trigger] grown[i], address) {
            let i = choose|i: int| 0 <= i < grown.len() && stands_at(#[trigger] grown[i], address);
            assert(i < done.len());
            assert(done[i] == grown[i]);
        }
    }
}

/// Setting a breakpoint where it belongs leaves the others answered.
proof fn lemma_set_answer_fits(
    d: DebuggerView,
    source_file: Seq<char>,
    requested: Seq<SourceBreakpoint>,
    done: Seq<Breakpoint>,
    address: u64,
)
    requires
        batch_fits(d, source_file, requested, done),
        done.len() < requested.len(),
        location_of(d, source_file, requested[done.len() as int]) == Some(Some(address)),
    ensures
        ({
            let set = located(requested[done.len() as int], address, true);
            let after = DebuggerView {
                breakpoints: d.breakpoints.insert(address as u32, set),
                ..d
            };
            batch_fits(after, source_file, requested, done.push(set))
        }),
{
    lemma_id_is_address(address);
    let set = located(requested[done.len() as int], address, true);
    let after = DebuggerView { breakpoints: d.breakpoints.insert(address as u32, set), ..d };
    let grown = done.push(set);
    assert forall|i: int| 0 <= i < grown.len() implies answers(
        after,
        source_file,
        requested[i],
        #[trigger] grown[i],
    ) by {
        assert(location_of(after, source_file, requested[i]) == location_of(
            d,
            source_file,
            requested[i],
        ));
        if i < done.len() {
            assert(grown[i] == done[i]);
        }
    }
    assert forall|a: u32| #[trigger] after.breakpoints.contains_key(a) <==> exists|i: int|
        0 <= i < grown.len() && stands_at(#[trigger] grown[i], a) by {
        if after.breakpoints.contains_key(a) {
            if a == address as u32 {
                assert(stands_at(grown[done.len() as int], a));
            } else {
                assert(d.breakpoints.contains_key(a));
                let i = choose|i: int| 0 <= i < done.len() && stands_at(#[trigger] done[i], a);
                assert(grown[i] == done[i]);
            }
        }
        if exists|i: int| 0 <= i < grown.len() && stands_at(#[trigger] grown[i], a) {
            let i = choose|i: int| 0 <= i < grown.len() && stands_at(#[trigger] grown[i], a);
            if i < done.len() {
                assert(done[i] == grown[i]);
                assert(d.breakpoints.contains_key(a));
            }
        }
    }
}

/// Answering those that belong nowhere leaves the others answered.
proof fn lemma_unlocated_fit(
    d: DebuggerView,
    source_file: Seq<char>,
    requested: Seq<SourceBreakpoint>,
    done: Seq<Breakpoint>,
    to: int,
)
    requires
        batch_fits(d, source_file, requested, done),
        done.len() <= to <= next_located(d, source_file, requested, done.len() as int),
    ensures
        with_unlocated(done, requested, to).len() == to,
        batch_fits(d, source_file, requested, with_unlocated(done, requested, to)),
    decreases to - done.len(),
{
    lemma_next_located(d, source_file, requested, done.len() as int);
    if to == done.len() {
        assert(with_unlocated(done, requested, to) =~= done);
    } else {
        lemma_unlocated_fit(d, source_file, requested, done, to - 1);
        let before = with_unlocated(done, requested, to - 1);
        assert(location_of(d, source_file, requested[to - 1]) == Some(None::<u64>));
        lemma_unset_answer_fits(d, source_file, requested, before, unlocated(requested[to - 1]));
        assert(with_unlocated(done, requested, to) =~= before.push(unlocated(requested[to - 1])));
    }
}

/// Where breakpoints of a source file are being set, the first of them are
/// answered, and the next one belongs where it was found.
pub open spec fn answered_so_far(d: DebuggerView, pending: Pending) -> bool {
    match pending {
        Pending::AfterDone(AfterDone::BatchSet { batch }) => batch_fits(
            d,
            batch.source_file@,
            batch.requested@,
            batch.done@,
        ),
        Pending::AfterWord(AfterWord::BatchUnits { batch, address }) => {
            &&& batch_fits(d, batch.source_file@, batch.requested@, batch.done@)
            &&& location_of(
                d,
                batch.source_file@,
                batch.requested@[batch.done@.len() as int],
            ) == Some(Some(address))
        },
        _ => true,
    }
}

/// Where the command needs an operation, the breakpoints that it is setting
/// are answered so far.
pub open spec fn remains_answered(d: DebuggerView, progress: Progress) -> bool {
    progress matches Progress::Ask { then, .. } ==> answered_so_far(d, then)
}

/// The breakpoints answer all those requested, and those of them that are set
/// are the ones that the session keeps.
pub open spec fn answers_all(
    d: DebuggerView,
    source_file: Seq<char>,
    requested: Seq<SourceBreakpoint>,
    progress: Progress,
) -> bool {
    progress matches Progress::Answer(
        Command::Response(DebugResponse::SetBreakpoints { breakpoints }),
    ) ==> {
        &&& breakpoints@.len() == requested.len()
        &&& batch_fits(d, source_file, requested, breakpoints@)
    }
}

/// Placing the next breakpoints keeps the command able to go on.
proof fn lemma_places_fit(
    d: DebuggerView,
    source_file: String,
    requested: Vec<SourceBreakpoint>,
    done: Seq<Breakpoint>,
    progress: Progress,
)
    requires
        done.len() <= requested@.len(),
        requested@.len() > 0 ==> searchable(d.dwarf),
        places(d, source_file, requested, done, progress),
    ensures
        remains_fit(d, progress),
{
    lemma_next_located(d, source_file@, requested@, done.len() as int);
}

/// Placing the next breakpoints leaves the others answered.
proof fn lemma_places(
    d: DebuggerView,
    source_file: String,
    requested: Vec<SourceBreakpoint>,
    done: Seq<Breakpoint>,
    progress: Progress,
)
    requires
        batch_fits(d, source_file@, requested@, done),
        places(d, source_file, requested, done, progress),
    ensures
        remains_answered(d, progress),
        answers_all(d, source_file@, requested@, progress),
{
    let next = next_located(d, source_file@, requested@, done.len() as int);
    lemma_next_located(d, source_file@, requested@, done.len() as int);
    lemma_unlocated_fit(d, source_file@, requested@, done, next);
}

/// The breakpoints that a command is setting, where it sets several: the
/// source file and the breakpoints asked for.
pub open spec fn batch_of(pending: Pending) -> Option<(Seq<char>, Seq<SourceBreakpoint>)> {
    match pending {
        Pending::AfterDone(AfterDone::BatchCleared { batch }) => Some(
            (batch.source_file@, batch.requested@),
        ),
        Pending::AfterDone(AfterDone::BatchSet { batch }) => Some(
            (batch.source_file@, batch.requested@),
        ),
        Pending::AfterWord(AfterWord::BatchUnits { batch, .. }) => Some(
            (batch.source_file@, batch.requested@),
        ),
        _ => None,
    }
}

/// Whatever a session is asked that it can take, each of its breakpoints stands
/// at the address under which it is kept, and the command can go on.
pub proof fn law_requests_keep_the_invariant(
    d: DebuggerView,
    request: DebugRequest,
    after: DebuggerView,
    progress: Progress,
)
    requires
        d.wf(),
        serves(d, request),
        starts(d, request, after, progress),
    ensures
        after.wf(),
        remains_fit(after, progress),
{
}

/// Whatever the target replies, each breakpoint of a session stands at the
/// address under which it is kept, and the command can go on.
pub proof fn law_replies_keep_the_invariant(
    d: DebuggerView,
    pending: Pending,
    reply: Reply,
    after: DebuggerView,
    progress: Progress,
)
    requires
        d.wf(),
        fits(d, pending),
        pending.accepts(reply),
        goes_on(d, pending, reply, after, progress),
    ensures
        after.wf(),
        remains_fit(after, progress),
{
    match pending {
        Pending::AfterDone(AfterDone::BreakpointSet { address }) => {
            lemma_short_id_is_address(address);
            assert(stands_at(address_breakpoint(address), address));
        },
        Pending::AfterDone(AfterDone::BatchCleared { batch }) => {
            lemma_places_fit(after, batch.source_file, batch.requested, batch.done@, progress);
        },
        Pending::AfterDone(AfterDone::BatchSet { batch }) => {
            lemma_places_fit(after, batch.source_file, batch.requested, batch.done@, progress);
        },
        Pending::AfterWord(AfterWord::BatchUnits { batch, address }) => {
            let asked = batch.requested@[batch.done@.len() as int];
            lemma_id_is_address(address);
            if d.breakpoints.len() < reply->Word_0 {
                assert(stands_at(located(asked, address, true), address as u32));
            } else {
                let grown = batch.done@.push(located(asked, address, false));
                lemma_places_fit(d, batch.source_file, batch.requested, grown, progress);
            }
        },
        _ => {},
    }
}

/// A request to set the breakpoints of a source file starts with none of them
/// answered.
pub proof fn law_requests_start_without_answers(
    d: DebuggerView,
    request: DebugRequest,
    after: DebuggerView,
    progress: Progress,
)
    requires
        starts(d, request, after, progress),
    ensures
        remains_answered(after, progress),
        progress matches Progress::Ask { then, .. } ==> forall|units: u32| #[trigger]
            units_decided_so_far(after, then, units),
{
}

/// When breakpoints of a source file have been set, each has its answer, in the
/// order in which they were asked for: with the position asked for and the
/// address where it belongs. Those that are answered as set are those that the
/// session keeps.
pub proof fn law_breakpoints_are_answered(
    d: DebuggerView,
    pending: Pending,
    reply: Reply,
    after: DebuggerView,
    progress: Progress,
)
    requires
        fits(d, pending),
        answered_so_far(d, pending),
        pending.accepts(reply),
        goes_on(d, pending, reply, after, progress),
    ensures
        remains_answered(after, progress),
        batch_of(pending) matches Some((source_file, requested)) ==> answers_all(
            after,
            source_file,
            requested,
            progress,
        ),
{
    match pending {
        Pending::AfterDone(AfterDone::BatchCleared { batch }) => {
            assert(batch_fits(after, batch.source_file@, batch.requested@, batch.done@));
            lemma_places(after, batch.source_file, batch.requested, batch.done@, progress);
        },
        Pending::AfterDone(AfterDone::BatchSet { batch }) => {
            lemma_places(after, batch.source_file, batch.requested, batch.done@, progress);
        },
        Pending::AfterWord(AfterWord::BatchUnits { batch, address }) => {
            let asked = batch.requested@[batch.done@.len() as int];
            if d.breakpoints.len() < reply->Word_0 {
                lemma_set_answer_fits(
                    d,
                    batch.source_file@,
                    batch.requested@,
                    batch.done@,
                    address,
                );
            } else {
                let answer = located(asked, address, false);
                lemma_unset_answer_fits(
                    d,
                    batch.source_file@,
                    batch.requested@,
                    batch.done@,
                    answer,
                );
                lemma_places(
                    d,
                    batch.source_file,
                    batch.requested,
                    batch.done@.push(answer),
                    progress,
                );
            }
        },
        _ => {},
    }
}

/// The breakpoints that are kept once these are answered, by address: where
/// several are set at one address, the last of them.
pub open spec fn kept(answered: Seq<Breakpoint>) -> Map<u32, Breakpoint>
    decreases answered.len(),
{
    if answered.len() == 0 {
        Map::empty()
    } else {
        let before = kept(answered.drop_last());
        let last = answered.last();
        if last.verified && last.id is Some {
            before.insert(last.id->0 as u32, last)
        } else {
            before
        }
    }
}

/// Of the breakpoints in `done`, which answer the first of those requested,
/// those are set that belong somewhere and before which fewer distinct
/// addresses were set than the hardware has units.
pub open spec fn set_while_units_last(
    d: DebuggerView,
    source_file: Seq<char>,
    requested: Seq<SourceBreakpoint>,
    done: Seq<Breakpoint>,
    units: u32,
) -> bool {
    forall|i: int|
        0 <= i < done.len() ==> ((#[trigger] done[i]).verified <==> {
            &&& location_of(d, source_file, requested[i]) matches Some(Some(_))
            &&& kept(done.take(i)).dom().len() < units
        })
}

/// The session keeps what is set of the breakpoints in `done`, and the number
/// of units decided which are.
pub open spec fn units_decided(
    d: DebuggerView,
    source_file: Seq<char>,
    requested: Seq<SourceBreakpoint>,
    done: Seq<Breakpoint>,
    units: u32,
) -> bool {
    &&& d.breakpoints == kept(done)
    &&& set_while_units_last(d, source_file, requested, done, units)
}

/// Where breakpoints of a source file are being set, the number of units
/// decided which of those answered so far are set.
pub open spec fn units_decided_so_far(d: DebuggerView, pending: Pending, units: u32) -> bool {
    match pending {
        Pending::AfterDone(AfterDone::BatchSet { batch }) => units_decided(
            d,
            batch.source_file@,
            batch.requested@,
            batch.done@,
            units,
        ),
        Pending::AfterWord(AfterWord::BatchUnits { batch, address }) => {
            &&& units_decided(d, batch.source_file@, batch.requested@, batch.done@, units)
            &&& location_of(
                d,
                batch.source_file@,
                batch.requested@[batch.done@.len() as int],
            ) == Some(Some(address))
        },
        _ => true,
    }
}

/// Answering one more breakpoint as the number of units decides leaves the
/// others decided.
proof fn lemma_one_more_decided(
    d: DebuggerView,
    source_file: Seq<char>,
    requested: Seq<SourceBreakpoint>,
    done: Seq<Breakpoint>,
    answer: Breakpoint,
    after: DebuggerView,
    units: u32,
)
    requires
        units_decided(d, source_file, requested, done, units),
        answer.verified <==> {
            &&& location_of(d, source_file, requested[done.len() as int]) matches Some(Some(_))
            &&& kept(done).dom().len() < units
        },
        after == (DebuggerView { breakpoints: kept(done.push(answer)), ..d }),
    ensures
        units_decided(after, source_file, requested, done.push(answer), units),
{
    let grown = done.push(answer);
    assert forall|i: int| 0 <= i < grown.len() implies ((#[trigger] grown[i]).verified <==> {
        &&& location_of(after, source_file, requested[i]) matches Some(Some(_))
        &&& kept(grown.take(i)).dom().len() < units
    }) by {
        assert(location_of(after, source_file, requested[i]) == location_of(
            d,
            source_file,
            requested[i],
        ));
        assert(grown.take(i) =~= done.take(i));
        if i < done.len() {
            assert(grown[i] == done[i]);
        } else {
            assert(done.take(i) =~= done);
        }
    }
}

/// Answering those that belong nowhere leaves the others decided.
proof fn lemma_unlocated_decided(
    d: DebuggerView,
    source_file: Seq<char>,
    requested: Seq<SourceBreakpoint>,
    done: Seq<Breakpoint>,
    to: int,
    units: u32,
)
    requires
        units_decided(d, source_file, requested, done, units),
        done.len() <= requested.len(),
        done.len() <= to <= next_located(d, source_file, requested, done.len() as int),
    ensures
        with_unlocated(done, requested, to).len() == to,
        units_decided(d, source_file, requested, with_unlocated(done, requested, to), units),
    decreases to - done.len(),
{
    lemma_next_located(d, source_file, requested, done.len() as int);
    if to == done.len() {
        assert(with_unlocated(done, requested, to) =~= done);
    } else {
        lemma_unlocated_decided(d, source_file, requested, done, to - 1, units);
        let before = with_unlocated(done, requested, to - 1);
        let answer = unlocated(requested[to - 1]);
        assert(location_of(d, source_file, requested[to - 1]) == Some(None::<u64>));
        assert(before.push(answer).drop_last() =~= before);
        lemma_one_more_decided(d, source_file, requested, before, answer, d, units);
        assert(with_unlocated(done, requested, to) =~= before.push(answer));
    }
}

/// The answer to a request to set the breakpoints of a source file, if it is
/// one, is as the number of units decides.
pub open spec fn answers_as_decided(
    d: DebuggerView,
    source_file: Seq<char>,
    requested: Seq<SourceBreakpoint>,
    progress: Progress,
    units: u32,
) -> bool {
    progress matches Progress::Answer(
        Command::Response(DebugResponse::SetBreakpoints { breakpoints }),
    ) ==> units_decided(d, source_file, requested, breakpoints@, units)
}

/// Placing the next breakpoints leaves the others decided.
proof fn lemma_places_decided(
    d: DebuggerView,
    source_file: String,
    requested: Vec<SourceBreakpoint>,
    done: Seq<Breakpoint>,
    progress: Progress,
    units: u32,
)
    requires
        units_decided(d, source_file@, requested@, done, units),
        done.len() <= requested@.len(),
        places(d, source_file, requested, done, progress),
    ensures
        progress matches Progress::Ask { then, .. } ==> units_decided_so_far(d, then, units),
        answers_as_decided(d, source_file@, requested@, progress, units),
{
    let next = next_located(d, source_file@, requested@, done.len() as int);
    lemma_next_located(d, source_file@, requested@, done.len() as int);
    lemma_unlocated_decided(d, source_file@, requested@, done, next, units);
}

/// As long as the hardware tells the same number of units, a breakpoint of a
/// source file is set exactly if it belongs somewhere and fewer distinct
/// addresses than units were set before it; and the session keeps, at each
/// address, the last one that was set there.
pub proof fn law_units_decide_what_is_set(
    d: DebuggerView,
    pending: Pending,
    reply: Reply,
    after: DebuggerView,
    progress: Progress,
    units: u32,
)
    requires
        fits(d, pending),
        units_decided_so_far(d, pending, units),
        pending.accepts(reply),
        goes_on(d, pending, reply, after, progress),
        pending matches Pending::AfterWord(AfterWord::BatchUnits { .. }) ==> reply == Reply::Word(
            units,
        ),
    ensures
        progress matches Progress::Ask { then, .. } ==> units_decided_so_far(after, then, units),
        batch_of(pending) matches Some((source_file, requested)) ==> answers_as_decided(
            after,
            source_file,
            requested,
            progress,
            units,
        ),
{
    match pending {
        Pending::AfterDone(AfterDone::BatchCleared { batch }) => {
            assert(after.breakpoints =~= kept(batch.done@));
            lemma_places_decided(
                after,
                batch.source_file,
                batch.requested,
                batch.done@,
                progress,
                units,
            );
        },
        Pending::AfterDone(AfterDone::BatchSet { batch }) => {
            lemma_places_decided(
                after,
                batch.source_file,
                batch.requested,
                batch.done@,
                progress,
                units,
            );
        },
        Pending::AfterWord(AfterWord::BatchUnits { batch, address }) => {
            lemma_id_is_address(address);
            let asked = batch.requested@[batch.done@.len() as int];
            let answer = located(asked, address, d.breakpoints.len() < units);
            assert(batch.done@.push(answer).drop_last() =~= batch.done@);
            lemma_one_more_decided(
                d,
                batch.source_file@,
                batch.requested@,
                batch.done@,
                answer,
                after,
                units,
            );
            if d.breakpoints.len() >= units {
                lemma_places_decided(
                    d,
                    batch.source_file,
                    batch.requested,
                    batch.done@.push(answer),
                    progress,
                    units,
                );
            }
        },
        _ => {},
    }
}

/// The search failed for the breakpoint behind those in `answered`. Those have
/// their answers as the number of units decides, and the session keeps what is
/// set of them.
pub open spec fn search_failed_behind(
    d: DebuggerView,
    source_file: Seq<char>,
    requested: Seq<SourceBreakpoint>,
    answered: Seq<Breakpoint>,
    units: u32,
) -> bool {
    &&& answered.len() < requested.len()
    &&& location_of(d, source_file, requested[answered.len() as int]) is None
    &&& batch_fits(d, source_file, requested, answered)
    &&& units_decided(d, source_file, requested, answered, units)
}

proof fn lemma_failed_search(
    d: DebuggerView,
    source_file: String,
    requested: Vec<SourceBreakpoint>,
    done: Seq<Breakpoint>,
    progress: Progress,
    units: u32,
)
    requires
        batch_fits(d, source_file@, requested@, done),
        units_decided(d, source_file@, requested@, done, units),
        places(d, source_file, requested, done, progress),
        progress is Fail,
    ensures
        progress matches Progress::Fail(DebugError::Target { .. }),
        exists|answered: Seq<Breakpoint>| #[trigger]
            search_failed_behind(d, source_file@, requested@, answered, units),
{
    let next = next_located(d, source_file@, requested@, done.len() as int);
    lemma_next_located(d, source_file@, requested@, done.len() as int);
    lemma_unlocated_fit(d, source_file@, requested@, done, next);
    lemma_unlocated_decided(d, source_file@, requested@, done, next, units);
    let answered = with_unlocated(done, requested@, next);
    assert(search_failed_behind(d, source_file@, requested@, answered, units));
}

/// Setting the breakpoints of a source file fails only where the search for one
/// of them fails. Those before it have been answered, and the session keeps what
/// was set of them.
pub proof fn law_failed_searches_keep_what_was_set(
    d: DebuggerView,
    pending: Pending,
    reply: Reply,
    after: DebuggerView,
    progress: Progress,
    source_file: Seq<char>,
    requested: Seq<SourceBreakpoint>,
    units: u32,
)
    requires
        batch_of(pending) == Some((source_file, requested)),
        fits(d, pending),
        answered_so_far(d, pending),
        units_decided_so_far(d, pending, units),
        pending.accepts(reply),
        goes_on(d, pending, reply, after, progress),
        pending matches Pending::AfterWord(AfterWord::BatchUnits { .. }) ==> reply == Reply::Word(
            units,
        ),
        progress is Fail,
    ensures
        progress matches Progress::Fail(DebugError::Target { .. }),
        exists|answered: Seq<Breakpoint>| #[trigger]
            search_failed_behind(after, source_file, requested, answered, units),
{
    match pending {
        Pending::AfterDone(AfterDone::BatchCleared { batch }) => {
            assert(after.breakpoints =~= kept(batch.done@));
            assert(batch_fits(after, batch.source_file@, batch.requested@, batch.done@));
            lemma_failed_search(
                after,
                batch.source_file,
                batch.requested,
                batch.done@,
                progress,
                units,
            );
        },
        Pending::AfterDone(AfterDone::BatchSet { batch }) => {
            lemma_failed_search(
                after,
                batch.source_file,
                batch.requested,
                batch.done@,
                progress,
                units,
            );
        },
        Pending::AfterWord(AfterWord::BatchUnits { batch, address }) => {
            let asked = batch.requested@[batch.done@.len() as int];
            let answer = located(asked, address, false);
            assert(batch.done@.push(answer).drop_last() =~= batch.done@);
            lemma_one_more_decided(
                d,
                batch.source_file@,
                batch.requested@,
                batch.done@,
                answer,
                after,
                units,
            );
            lemma_unset_answer_fits(
                d,
                batch.source_file@,
                batch.requested@,
                batch.done@,
                answer,
            );
            lemma_failed_search(
                d,
                batch.source_file,
                batch.requested,
                batch.done@.push(answer),
                progress,
                units,
            );
        },
        _ => {},
    }
}

/// Of the breakpoints that are answered as set at an address, the last one is
/// kept there; where none is, none is kept.
pub proof fn law_the_last_one_set_is_kept(answered: Seq<Breakpoint>, address: u32, i: int)
    ensures
        kept(answered).contains_key(address) <==> exists|j: int|
            0 <= j < answered.len() && stands_at(#[trigger] answered[j], address),
        0 <= i < answered.len() && stands_at(answered[i], address) && (forall|j: int|
            i < j < answered.len() ==> !stands_at(#[trigger] answered[j], address)) ==> kept(
            answered,
        )[address] == answered[i],
    decreases answered.len(),
{
    if answered.len() > 0 {
        let before = answered.drop_last();
        law_the_last_one_set_is_kept(before, address, i);
        assert(forall|j: int| 0 <= j < before.len() ==> #[trigger] answered[j] == before[j]);
        assert(forall|j: int| 0 <= j < before.len() ==> answered[j] == #[trigger] before[j]);
        assert(answered[answered.len() - 1] == answered.last());
    }
}

} // verus!
