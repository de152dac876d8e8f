//! Defaults of the analysis configuration that do not involve distances or speeds.
use vstd::prelude::*;
use crate::clock::{lemma_clock_roundtrip, spec_clock, spec_parse_hhmm};

verus! {

/// Default number of candidate bike bus routes to propose.
pub fn default_max_routes() -> (n: usize)
    ensures
        n == 3,
{
    3
}

/// Default time by which the bike bus reaches the school.
pub fn default_arrival_time() -> (s: String)
    ensures
        s@ == "08:45"@,
{
    "08:45".to_owned()
}

/// The default arrival time is a well-formed `HH:MM` time, 31500 seconds
/// (8 h 45 min) after midnight.
pub proof fn lemma_default_arrival_parses()
    ensures
        spec_parse_hhmm("08:45"@) == Some(31500nat),
{
    reveal_strlit("08:45");
    assert("08:45"@ =~= spec_clock(525));
    lemma_clock_roundtrip(525);
}

} // verus!
