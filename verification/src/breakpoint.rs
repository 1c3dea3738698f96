//! Breakpoints, as they are asked for and as they are set.
use vstd::prelude::*;

verus! {

/// A source file as the debug adapter protocol describes it. The debugger
/// hands it through.
#[verifier::external_type_specification]
#[verifier::external_body]
pub struct ExSource(debugserver_types::Source);

/// A breakpoint in the source code that is asked for.
#[derive(Debug, Clone, Copy)]
pub struct SourceBreakpoint {
    pub line: i64,
    pub column: Option<i64>,
}

/// A breakpoint as the debugger answers it.
#[derive(Debug)]
pub struct Breakpoint {
    /// The address of the breakpoint.
    pub id: Option<i64>,
    /// Whether the breakpoint could be set.
    pub verified: bool,
    pub message: Option<String>,
    pub source: Option<debugserver_types::Source>,
    pub line: Option<i64>,
    pub column: Option<i64>,
    pub end_line: Option<i64>,
    pub end_column: Option<i64>,
}

impl Breakpoint {
    /// The breakpoint with this address, position and state, and nothing else.
    pub open spec fn with(
        id: Option<i64>,
        verified: bool,
        line: Option<i64>,
        column: Option<i64>,
    ) -> Breakpoint {
        Breakpoint {
            id,
            verified,
            message: None,
            source: None,
            line,
            column,
            end_line: None,
            end_column: None,
        }
    }

    /// The breakpoint with this address, position and state, and nothing else.
    pub fn new(
        id: Option<i64>,
        verified: bool,
        line: Option<i64>,
        column: Option<i64>,
    ) -> (breakpoint: Breakpoint)
        ensures
            breakpoint == Breakpoint::with(id, verified, line, column),
    {
        Breakpoint {
            id,
            verified,
            message: None,
            source: None,
            line,
            column,
            end_line: None,
            end_column: None,
        }
    }
}

} // verus!
