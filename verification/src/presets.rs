//! Named preset patterns, each with its customary repetition count.

use vstd::prelude::*;

use crate::pattern::Event;

verus! {

/// How many times the simple beat is customarily repeated.
pub const SIMPLE_PATTERN_REPETITIONS: usize = 10;

/// The simple beat, as a sequence: a "four-on-the-floor" rhythm with an
/// accentuated fifth step.
pub open spec fn simple_pattern_events() -> Seq<Event> {
    seq![
        Event { size_kb: 2, delay_ms: 250 },
        Event { size_kb: 1, delay_ms: 250 },
        Event { size_kb: 2, delay_ms: 250 },
        Event { size_kb: 1, delay_ms: 250 },
        Event { size_kb: 4, delay_ms: 500 },
        Event { size_kb: 1, delay_ms: 250 },
        Event { size_kb: 2, delay_ms: 250 },
        Event { size_kb: 1, delay_ms: 250 },
    ]
}

/// A simple "four-on-the-floor" beat with an accent: kick, hi-hat, snare,
/// hi-hat, a heavier kick with a longer pause, then three closing steps.
pub fn simple_pattern() -> (p: Vec<Event>)
    ensures
        p@ == simple_pattern_events(),
{
    let mut p: Vec<Event> = Vec::new();
    p.push(Event { size_kb: 2, delay_ms: 250 });
    p.push(Event { size_kb: 1, delay_ms: 250 });
    p.push(Event { size_kb: 2, delay_ms: 250 });
    p.push(Event { size_kb: 1, delay_ms: 250 });
    p.push(Event { size_kb: 4, delay_ms: 500 });
    p.push(Event { size_kb: 1, delay_ms: 250 });
    p.push(Event { size_kb: 2, delay_ms: 250 });
    p.push(Event { size_kb: 1, delay_ms: 250 });
    proof {
        assert(p@ =~= simple_pattern_events());
    }
    p
}

/// How many times the harder phrase is customarily repeated.
pub const HARDER_PATTERN_REPETITIONS: usize = 2;

/// The harder phrase, as a sequence: staccato, melodic, complex, and a long
/// sustained note followed by a rest.
pub open spec fn harder_pattern_events() -> Seq<Event> {
    seq![
        Event { size_kb: 2, delay_ms: 250 },
        Event { size_kb: 1, delay_ms: 125 },
        Event { size_kb: 1, delay_ms: 125 },
        Event { size_kb: 2, delay_ms: 250 },
        Event { size_kb: 4, delay_ms: 500 },
        Event { size_kb: 1, delay_ms: 500 },
        Event { size_kb: 2, delay_ms: 250 },
        Event { size_kb: 3, delay_ms: 250 },
        Event { size_kb: 4, delay_ms: 500 },
        Event { size_kb: 2, delay_ms: 125 },
        Event { size_kb: 1, delay_ms: 125 },
        Event { size_kb: 2, delay_ms: 125 },
        Event { size_kb: 1, delay_ms: 125 },
        Event { size_kb: 3, delay_ms: 250 },
        Event { size_kb: 2, delay_ms: 250 },
        Event { size_kb: 4, delay_ms: 500 },
        Event { size_kb: 6, delay_ms: 1000 },
        Event { size_kb: 0, delay_ms: 1000 },
    ]
}

/// A longer, more varied musical phrase in four parts: a short staccato
/// opening, a slower melodic section, a faster complex part, and a long
/// sustained note ending in a rest.
pub fn harder_pattern() -> (p: Vec<Event>)
    ensures
        p@ == harder_pattern_events(),
{
    let mut p: Vec<Event> = Vec::new();
    p.push(Event { size_kb: 2, delay_ms: 250 });
    p.push(Event { size_kb: 1, delay_ms: 125 });
    p.push(Event { size_kb: 1, delay_ms: 125 });
    p.push(Event { size_kb: 2, delay_ms: 250 });
    p.push(Event { size_kb: 4, delay_ms: 500 });
    p.push(Event { size_kb: 1, delay_ms: 500 });
    p.push(Event { size_kb: 2, delay_ms: 250 });
    p.push(Event { size_kb: 3, delay_ms: 250 });
    p.push(Event { size_kb: 4, delay_ms: 500 });
    p.push(Event { size_kb: 2, delay_ms: 125 });
    p.push(Event { size_kb: 1, delay_ms: 125 });
    p.push(Event { size_kb: 2, delay_ms: 125 });
    p.push(Event { size_kb: 1, delay_ms: 125 });
    p.push(Event { size_kb: 3, delay_ms: 250 });
    p.push(Event { size_kb: 2, delay_ms: 250 });
    p.push(Event { size_kb: 4, delay_ms: 500 });
    p.push(Event { size_kb: 6, delay_ms: 1000 });
    p.push(Event { size_kb: 0, delay_ms: 1000 });
    proof {
        assert(p@ =~= harder_pattern_events());
    }
    p
}

/// How many times the anthem phrase is customarily repeated.
pub const UKRAINIAN_ANTHEM_REPETITIONS: usize = 3;

/// The anthem phrase, as a sequence: two lines of the opening, separated and
/// closed by rests.
pub open spec fn ukrainian_anthem_events() -> Seq<Event> {
    seq![
        Event { size_kb: 2, delay_ms: 250 },
        Event { size_kb: 2, delay_ms: 250 },
        Event { size_kb: 4, delay_ms: 500 },
        Event { size_kb: 2, delay_ms: 250 },
        Event { size_kb: 4, delay_ms: 500 },
        Event { size_kb: 3, delay_ms: 250 },
        Event { size_kb: 3, delay_ms: 250 },
        Event { size_kb: 5, delay_ms: 750 },
        Event { size_kb: 0, delay_ms: 500 },
        Event { size_kb: 2, delay_ms: 250 },
        Event { size_kb: 4, delay_ms: 500 },
        Event { size_kb: 2, delay_ms: 250 },
        Event { size_kb: 2, delay_ms: 250 },
        Event { size_kb: 4, delay_ms: 500 },
        Event { size_kb: 6, delay_ms: 1000 },
        Event { size_kb: 0, delay_ms: 1000 },
    ]
}

/// A pattern that mimics the rhythm of the opening phrase of the Ukrainian
/// national anthem, with a rest between its two lines and a long rest at the
/// end.
pub fn ukrainian_anthem() -> (p: Vec<Event>)
    ensures
        p@ == ukrainian_anthem_events(),
{
    let mut p: Vec<Event> = Vec::new();
    p.push(Event { size_kb: 2, delay_ms: 250 });
    p.push(Event { size_kb: 2, delay_ms: 250 });
    p.push(Event { size_kb: 4, delay_ms: 500 });
    p.push(Event { size_kb: 2, delay_ms: 250 });
    p.push(Event { size_kb: 4, delay_ms: 500 });
    p.push(Event { size_kb: 3, delay_ms: 250 });
    p.push(Event { size_kb: 3, delay_ms: 250 });
    p.push(Event { size_kb: 5, delay_ms: 750 });
    p.push(Event { size_kb: 0, delay_ms: 500 });
    p.push(Event { size_kb: 2, delay_ms: 250 });
    p.push(Event { size_kb: 4, delay_ms: 500 });
    p.push(Event { size_kb: 2, delay_ms: 250 });
    p.push(Event { size_kb: 2, delay_ms: 250 });
    p.push(Event { size_kb: 4, delay_ms: 500 });
    p.push(Event { size_kb: 6, delay_ms: 1000 });
    p.push(Event { size_kb: 0, delay_ms: 1000 });
    proof {
        assert(p@ =~= ukrainian_anthem_events());
    }
    p
}

} // verus!
