//! What replacing all breakpoints by those of a source file does, from the
//! request to the end of the command.
use vstd::prelude::*;

use crate::breakpoint::{Breakpoint, SourceBreakpoint};
use crate::commands::{Command, DebugError, DebugRequest, DebugResponse};
use crate::debug_information::{breakpoint_location, searchable};
use crate::debugger::invariants::{
    answered_so_far, answers, batch_fits, batch_of, kept, law_breakpoints_are_answered,
    law_failed_searches_keep_what_was_set, law_replies_keep_the_invariant,
    law_the_last_one_set_is_kept, law_units_decide_what_is_set, lemma_next_located,
    search_failed_behind, units_decided, units_decided_so_far,
};
use crate::debugger::machine::{
    advances, carried_through, leads_to, lemma_after_operation, lemma_first, Course, Machine,
};
use crate::debugger::model::{fits, located, location_of, places};
use crate::debugger::protocol::{AfterDone, AfterWord, Pending, Progress, Query, Reply};
use crate::debugger::state::{stands_at, DebuggerView};

verus! {

/// The unsigned number of 64 bits that stands for a signed one: the number
/// itself where it is not negative.
pub open spec fn stands_for(number: u64, asked: i64) -> bool {
    number == if asked >= 0 {
        asked as int
    } else {
        asked + 0x1_0000_0000_0000_0000
    }
}

/// The line and the column that are looked up are those of the request.
pub open spec fn is_position_of(
    line: u64,
    column: Option<u64>,
    requested: SourceBreakpoint,
) -> bool {
    &&& stands_for(line, requested.line)
    &&& match (column, requested.column) {
        (Some(number), Some(asked)) => stands_for(number, asked),
        (None, None) => true,
        _ => false,
    }
}

proof fn lemma_stands_for(number: u64, asked: i64)
    requires
        stands_for(number, asked),
    ensures
        number == asked as u64,
{
    if asked < 0 {
        assert(asked < 0 ==> asked as u64 == asked + 0x1_0000_0000_0000_0000) by (bit_vector);
    }
}

/// A breakpoint of a source file is looked up at exactly its line and its
/// column, in the sections and the work directory of the session. So two
/// requests are looked up as the same position only where they are.
pub proof fn law_breakpoints_are_looked_up_where_asked(
    d: DebuggerView,
    source_file: Seq<char>,
    requested: SourceBreakpoint,
    line: u64,
    column: Option<u64>,
)
    requires
        is_position_of(line, column, requested),
    ensures
        location_of(d, source_file, requested) == breakpoint_location(
            d.dwarf,
            d.cwd,
            source_file,
            line,
            column,
        ),
{
    lemma_stands_for(line, requested.line);
    if let (Some(number), Some(asked)) = (column, requested.column) {
        lemma_stands_for(number, asked);
    }
}

/// The addresses at which the breakpoints are set.
pub open spec fn addresses_set(breakpoints: Seq<Breakpoint>) -> Set<u32> {
    Set::new(
        |address: u32|
            exists|i: int|
                {
                    &&& 0 <= i < breakpoints.len()
                    &&& (#[trigger] breakpoints[i]).verified
                    &&& breakpoints[i].id is Some
                    &&& breakpoints[i].id->0 as u32 == address
                },
    )
}

/// The answer to one breakpoint: it has the position asked for and the address
/// that was found for it, and it is set exactly if there is one and fewer than
/// `units` addresses were set before.
pub open spec fn is_answer_to(
    requested: SourceBreakpoint,
    location: Option<Option<u64>>,
    before: Set<u32>,
    units: u32,
    answer: Breakpoint,
) -> bool {
    &&& answer.line == Some(requested.line)
    &&& answer.column == requested.column
    &&& answer.message is None
    &&& answer.source is None
    &&& answer.end_line is None
    &&& answer.end_column is None
    &&& match location {
        Some(Some(address)) => {
            &&& answer.id == Some(address as i64)
            &&& answer.verified <==> before.len() < units
        },
        Some(None) => answer.id is None && !answer.verified,
        None => false,
    }
}

/// The breakpoints of a source file are being set, and those answered so far
/// are in the hardware.
spec fn on_course(
    d: DebuggerView,
    m: Machine,
    source_file: Seq<char>,
    requested: Seq<SourceBreakpoint>,
    c: Course,
) -> bool {
    &&& c.d.wf()
    &&& c.d == (DebuggerView { breakpoints: c.d.breakpoints, ..d })
    &&& c.m == (Machine { hardware: c.m.hardware, done: c.m.done, ..m })
    &&& match c.progress {
        Progress::Ask { query, then } => {
            &&& batch_of(then) == Some((source_file, requested))
            &&& fits(c.d, then)
            &&& answered_so_far(c.d, then)
            &&& units_decided_so_far(c.d, then, m.units)
            &&& match then {
                Pending::AfterWord(_) => query == Query::CountBreakpointUnits && c.m.hardware
                    == c.d.breakpoints.dom(),
                Pending::AfterDone(AfterDone::BatchSet { .. }) => {
                    &&& query matches Query::SetHardwareBreakpoint { address }
                    &&& c.m.hardware.insert(address) == c.d.breakpoints.dom()
                },
                _ => false,
            }
        },
        Progress::Answer(Command::Response(DebugResponse::SetBreakpoints { breakpoints })) => {
            &&& c.m.hardware == c.d.breakpoints.dom()
            &&& breakpoints@.len() == requested.len()
            &&& batch_fits(c.d, source_file, requested, breakpoints@)
            &&& units_decided(c.d, source_file, requested, breakpoints@, m.units)
        },
        Progress::Fail(DebugError::Target { .. }) => {
            &&& c.m.hardware == c.d.breakpoints.dom()
            &&& exists|answered: Seq<Breakpoint>| #[trigger]
                search_failed_behind(c.d, source_file, requested, answered, m.units)
        },
        _ => false,
    }
}

/// What placing the next breakpoints leads to.
proof fn lemma_placed(
    d: DebuggerView,
    source_file: String,
    requested: Vec<SourceBreakpoint>,
    done: Seq<Breakpoint>,
    progress: Progress,
)
    requires
        done.len() <= requested@.len(),
        places(d, source_file, requested, done, progress),
    ensures
        match progress {
            Progress::Ask { query, then } => {
                &&& query == Query::CountBreakpointUnits
                &&& then matches Pending::AfterWord(AfterWord::BatchUnits { .. })
                &&& batch_of(then) == Some((source_file@, requested@))
            },
            Progress::Answer(Command::Response(DebugResponse::SetBreakpoints { .. })) => true,
            Progress::Fail(DebugError::Target { .. }) => true,
            _ => false,
        },
{
    lemma_next_located(d, source_file@, requested@, done.len() as int);
}

/// Setting the breakpoints stays on course.
proof fn lemma_stays_on_course(
    d: DebuggerView,
    m: Machine,
    source_file: Seq<char>,
    requested: Seq<SourceBreakpoint>,
    c: Course,
    reply: Reply,
    next: Course,
)
    requires
        on_course(d, m, source_file, requested, c),
        advances(c, reply, next),
    ensures
        on_course(d, m, source_file, requested, next),
{
    let then = c.progress->then;
    law_replies_keep_the_invariant(c.d, then, reply, next.d, next.progress);
    law_breakpoints_are_answered(c.d, then, reply, next.d, next.progress);
    law_units_decide_what_is_set(c.d, then, reply, next.d, next.progress, m.units);
    if next.progress is Fail {
        law_failed_searches_keep_what_was_set(
            c.d,
            then,
            reply,
            next.d,
            next.progress,
            source_file,
            requested,
            m.units,
        );
    }
    match then {
        Pending::AfterDone(AfterDone::BatchSet { batch }) => {
            lemma_placed(next.d, batch.source_file, batch.requested, batch.done@, next.progress);
        },
        Pending::AfterWord(AfterWord::BatchUnits { batch, address }) => {
            if c.d.breakpoints.len() < m.units {
                assert(c.m.hardware.insert(address as u32) =~= next.d.breakpoints.dom());
            } else {
                let asked = batch.requested@[batch.done@.len() as int];
                lemma_placed(
                    next.d,
                    batch.source_file,
                    batch.requested,
                    batch.done@.push(located(asked, address, false)),
                    next.progress,
                );
            }
        },
        _ => {},
    }
}

/// Setting the breakpoints stays on course to the end.
proof fn lemma_ends_on_course(
    d: DebuggerView,
    m: Machine,
    source_file: Seq<char>,
    requested: Seq<SourceBreakpoint>,
    c: Course,
    n: nat,
    end: Course,
)
    requires
        on_course(d, m, source_file, requested, c),
        leads_to(c, n, end),
    ensures
        on_course(d, m, source_file, requested, end),
        end.progress !is Ask,
    decreases n,
{
    if c.progress is Ask {
        let (reply, next) = lemma_after_operation(c, n, end);
        lemma_stays_on_course(d, m, source_file, requested, c, reply, next);
        lemma_ends_on_course(d, m, source_file, requested, next, (n - 1) as nat, end);
    }
}

/// Where the command ends.
proof fn lemma_batch_ends(
    d: DebuggerView,
    m: Machine,
    source_file: String,
    source_breakpoints: Vec<SourceBreakpoint>,
    n: nat,
    end: Course,
)
    requires
        d.wf(),
        searchable(d.dwarf),
        carried_through(
            d,
            m,
            DebugRequest::SetBreakpoints { source_file, source_breakpoints },
            n,
            end,
        ),
    ensures
        on_course(d, m, source_file@, source_breakpoints@, end),
        end.progress !is Ask,
{
    let request = DebugRequest::SetBreakpoints { source_file, source_breakpoints };
    let c0 = lemma_first(d, m, request, n, end);
    let (cleared, c1) = lemma_after_operation(c0, n, end);
    let then = c0.progress->then;
    law_replies_keep_the_invariant(c0.d, then, cleared, c1.d, c1.progress);
    law_breakpoints_are_answered(c0.d, then, cleared, c1.d, c1.progress);
    law_units_decide_what_is_set(c0.d, then, cleared, c1.d, c1.progress, m.units);
    if c1.progress is Fail {
        law_failed_searches_keep_what_was_set(
            c0.d,
            then,
            cleared,
            c1.d,
            c1.progress,
            source_file@,
            source_breakpoints@,
            m.units,
        );
    }
    let batch = then->AfterDone_0->BatchCleared_batch;
    lemma_placed(c1.d, batch.source_file, batch.requested, batch.done@, c1.progress);
    assert(c1.m.hardware =~= c1.d.breakpoints.dom());
    lemma_ends_on_course(d, m, source_file@, source_breakpoints@, c1, (n - 1) as nat, end);
}

/// What is kept of the breakpoints stands at the addresses at which they are
/// set.
proof fn lemma_kept_where_set(breakpoints: Seq<Breakpoint>)
    ensures
        kept(breakpoints).dom() == addresses_set(breakpoints),
{
    assert forall|address: u32| #[trigger]
        kept(breakpoints).dom().contains(address) == addresses_set(breakpoints).contains(
            address,
        ) by {
        law_the_last_one_set_is_kept(breakpoints, address, 0);
    }
    assert(kept(breakpoints).dom() =~= addresses_set(breakpoints));
}

/// Replacing all breakpoints by those of a source file answers each of them, in
/// the order in which they were asked for. Each has its position and the address
/// that the search finds for exactly its line and its column; it is set exactly
/// if it has one and fewer addresses than the hardware has units were set
/// before. Those set are the only ones in the hardware and in the session, which
/// keeps, at each address, the last one set there. Where the search for one of
/// them fails, so does the command.
pub proof fn law_replacing_sets_the_breakpoints_of_the_file(
    d: DebuggerView,
    m: Machine,
    source_file: String,
    source_breakpoints: Vec<SourceBreakpoint>,
    lines: Seq<u64>,
    columns: Seq<Option<u64>>,
    n: nat,
    end: Course,
)
    requires
        d.wf(),
        searchable(d.dwarf),
        carried_through(
            d,
            m,
            DebugRequest::SetBreakpoints { source_file, source_breakpoints },
            n,
            end,
        ),
        lines.len() == source_breakpoints@.len(),
        columns.len() == source_breakpoints@.len(),
        forall|i: int|
            #![trigger lines[i]]
            0 <= i < lines.len() ==> is_position_of(lines[i], columns[i], source_breakpoints@[i]),
    ensures
        end.d == (DebuggerView { breakpoints: end.d.breakpoints, ..d }),
        end.m == (Machine { hardware: end.m.hardware, done: end.m.done, ..m }),
        end.m.hardware == end.d.breakpoints.dom(),
        if exists|i: int|
            #![trigger lines[i]]
            0 <= i < lines.len() && breakpoint_location(
                d.dwarf,
                d.cwd,
                source_file@,
                lines[i],
                columns[i],
            ) is None {
            end.progress matches Progress::Fail(DebugError::Target { .. })
        } else {
            end.progress matches Progress::Answer(
                Command::Response(DebugResponse::SetBreakpoints { breakpoints }),
            ) && {
                &&& breakpoints@.len() == source_breakpoints@.len()
                &&& forall|i: int|
                    #![trigger breakpoints@[i]]
                    0 <= i < breakpoints@.len() ==> is_answer_to(
                        source_breakpoints@[i],
                        breakpoint_location(d.dwarf, d.cwd, source_file@, lines[i], columns[i]),
                        addresses_set(breakpoints@.take(i)),
                        m.units,
                        breakpoints@[i],
                    )
                &&& end.d.breakpoints.dom() == addresses_set(breakpoints@)
                &&& forall|i: int|
                    #![trigger breakpoints@[i]]
                    0 <= i < breakpoints@.len() && breakpoints@[i].verified ==> {
                        let address = breakpoints@[i].id->0 as u32;
                        !addresses_set(breakpoints@.skip(i + 1)).contains(address)
                            ==> end.d.breakpoints[address] == breakpoints@[i]
                    }
            }
        },
{
    let requested = source_breakpoints@;
    lemma_batch_ends(d, m, source_file, source_breakpoints, n, end);
    assert forall|i: int|
        #![trigger lines[i]]
        0 <= i < lines.len() implies location_of(end.d, source_file@, requested[i])
        == breakpoint_location(d.dwarf, d.cwd, source_file@, lines[i], columns[i]) by {
        law_breakpoints_are_looked_up_where_asked(
            end.d,
            source_file@,
            requested[i],
            lines[i],
            columns[i],
        );
    }
    match end.progress {
        Progress::Answer(Command::Response(DebugResponse::SetBreakpoints { breakpoints })) => {
            assert forall|i: int|
                #![trigger lines[i]]
                0 <= i < lines.len() implies breakpoint_location(
                d.dwarf,
                d.cwd,
                source_file@,
                lines[i],
                columns[i],
            ) is Some by {
                assert(answers(end.d, source_file@, requested[i], breakpoints@[i]));
            }
            assert forall|i: int|
                #![trigger breakpoints@[i]]
                0 <= i < breakpoints@.len() implies is_answer_to(
                requested[i],
                breakpoint_location(d.dwarf, d.cwd, source_file@, lines[i], columns[i]),
                addresses_set(breakpoints@.take(i)),
                m.units,
                breakpoints@[i],
            ) by {
                assert(lines[i] == lines[i]);
                assert(answers(end.d, source_file@, requested[i], breakpoints@[i]));
                lemma_kept_where_set(breakpoints@.take(i));
            }
            lemma_kept_where_set(breakpoints@);
            assert forall|i: int|
                #![trigger breakpoints@[i]]
                0 <= i < breakpoints@.len() && breakpoints@[i].verified && !addresses_set(
                    breakpoints@.skip(i + 1),
                ).contains(
                    breakpoints@[i].id->0 as u32,
                ) implies end.d.breakpoints[breakpoints@[i].id->0 as u32] == breakpoints@[i] by {
                let address = breakpoints@[i].id->0 as u32;
                assert(answers(end.d, source_file@, requested[i], breakpoints@[i]));
                assert forall|j: int|
                    i < j < breakpoints@.len() implies !stands_at(
                    #[trigger] breakpoints@[j],
                    address,
                ) by {
                    assert(breakpoints@.skip(i + 1)[j - i - 1] == breakpoints@[j]);
                }
                law_the_last_one_set_is_kept(breakpoints@, address, i);
            }
        },
        _ => {
            let answered = choose|answered: Seq<Breakpoint>| #[trigger]
                search_failed_behind(end.d, source_file@, requested, answered, m.units);
            let i = answered.len() as int;
            assert(breakpoint_location(d.dwarf, d.cwd, source_file@, lines[i], columns[i])
                is None);
        },
    }
}

} // verus!
