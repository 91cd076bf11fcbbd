use crate::calendar::CalendarDateTime;
use vstd::prelude::*;

verus! {

/// Granularity of the integer count that a scheme stores.
#[derive(Clone, Copy, Debug, PartialEq, Eq, Structural, Hash)]
pub enum TimeUnit {
    Seconds,
    Milliseconds,
    Microseconds,
    Nanoseconds,
}

impl TimeUnit {
    pub open spec fn spec_ticks_per_second(self) -> int {
        match self {
            TimeUnit::Seconds => 1,
            TimeUnit::Milliseconds => 1_000,
            TimeUnit::Microseconds => 1_000_000,
            TimeUnit::Nanoseconds => 1_000_000_000,
        }
    }

    pub open spec fn spec_nanos_per_tick(self) -> int {
        1_000_000_000int / self.spec_ticks_per_second()
    }

    /// How many ticks of this unit make one second.
    pub fn ticks_per_second(&self) -> (r: i64)
        ensures
            r == self.spec_ticks_per_second(),
    {
        match self {
            TimeUnit::Seconds => 1,
            TimeUnit::Milliseconds => 1_000,
            TimeUnit::Microseconds => 1_000_000,
            TimeUnit::Nanoseconds => 1_000_000_000,
        }
    }

    /// How many nanoseconds one tick of this unit lasts.
    pub fn nanos_per_tick(&self) -> (r: i64)
        ensures
            r == self.spec_nanos_per_tick(),
            r * self.spec_ticks_per_second() == 1_000_000_000,
    {
        match self {
            TimeUnit::Seconds => 1_000_000_000,
            TimeUnit::Milliseconds => 1_000_000,
            TimeUnit::Microseconds => 1_000,
            TimeUnit::Nanoseconds => 1,
        }
    }
}

/// The supported timestamp conventions: each counts ticks of one unit
/// from one origin.
#[derive(Clone, Copy, Debug, PartialEq, Eq, Structural, Hash)]
pub enum Epoch {
    Apfs,
    Java,
    Mozilla,
    Unix,
}

/// The schemes in their fixed display order.
pub open spec fn spec_all_schemes() -> Seq<Epoch> {
    seq![Epoch::Apfs, Epoch::Java, Epoch::Mozilla, Epoch::Unix]
}

impl Epoch {
    pub open spec fn spec_unit(self) -> TimeUnit {
        match self {
            Epoch::Apfs => TimeUnit::Nanoseconds,
            Epoch::Java => TimeUnit::Milliseconds,
            Epoch::Mozilla => TimeUnit::Microseconds,
            Epoch::Unix => TimeUnit::Seconds,
        }
    }

    /// The instant that a count of zero stands for.
    pub open spec fn spec_origin(self) -> CalendarDateTime {
        CalendarDateTime {
            year: 1970,
            month: 1,
            day: 1,
            hour: 0,
            minute: 0,
            second: 0,
            nanosecond: 0,
        }
    }

    pub open spec fn spec_label(self) -> Seq<char> {
        match self {
            Epoch::Apfs => "APFS (nanoseconds)"@,
            Epoch::Java => "Java (milliseconds)"@,
            Epoch::Mozilla => "Mozilla (microseconds)"@,
            Epoch::Unix => "Unix (seconds)"@,
        }
    }

    pub fn unit(&self) -> (r: TimeUnit)
        ensures
            r == self.spec_unit(),
    {
        match self {
            Epoch::Apfs => TimeUnit::Nanoseconds,
            Epoch::Java => TimeUnit::Milliseconds,
            Epoch::Mozilla => TimeUnit::Microseconds,
            Epoch::Unix => TimeUnit::Seconds,
        }
    }

    pub fn origin(&self) -> (r: CalendarDateTime)
        ensures
            r == self.spec_origin(),
            r.wf(),
    {
        CalendarDateTime::unix_epoch()
    }

    /// Whole seconds from 1970-01-01T00:00:00 to the scheme's origin.
    pub fn origin_offset_seconds(&self) -> (r: i64)
        ensures
            r == self.spec_origin().seconds_since_epoch(),
    {
        0
    }

    /// The scheme's human-readable name, distinct for each scheme.
    pub fn label(&self) -> (r: &'static str)
        ensures
            r@ == self.spec_label(),
    {
        match self {
            Epoch::Apfs => "APFS (nanoseconds)",
            Epoch::Java => "Java (milliseconds)",
            Epoch::Mozilla => "Mozilla (microseconds)",
            Epoch::Unix => "Unix (seconds)",
        }
    }
}

/// Every scheme, once each, in a fixed order.
pub fn all_schemes() -> (r: Vec<Epoch>)
    ensures
        r@ == spec_all_schemes(),
{
    vec![Epoch::Apfs, Epoch::Java, Epoch::Mozilla, Epoch::Unix]
}

/// The list of schemes is exhaustive and without repeats, and no two schemes
/// share a label.
pub proof fn lemma_schemes_listed_once(a: Epoch, b: Epoch)
    ensures
        spec_all_schemes().len() == 4,
        spec_all_schemes().contains(a),
        spec_all_schemes().no_duplicates(),
        a != b ==> a.spec_label() != b.spec_label(),
{
    reveal_strlit("APFS (nanoseconds)");
    reveal_strlit("Java (milliseconds)");
    reveal_strlit("Mozilla (microseconds)");
    reveal_strlit("Unix (seconds)");
    let s = spec_all_schemes();
    assert(s[0] == Epoch::Apfs && s[1] == Epoch::Java && s[2] == Epoch::Mozilla && s[3] == Epoch::Unix);
    match a {
        Epoch::Apfs => assert(s[0] == a),
        Epoch::Java => assert(s[1] == a),
        Epoch::Mozilla => assert(s[2] == a),
        Epoch::Unix => assert(s[3] == a),
    }
    if a != b {
        assert(a.spec_label()[0] != b.spec_label()[0]);
    }
}

} // verus!
