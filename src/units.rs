use vstd::prelude::*;

verus! {

/// Nanoseconds in a microsecond.
pub const MICRO_SEC: u64 = 1_000;

/// Nanoseconds in a millisecond.
pub const MILLI_SEC: u64 = 1_000_000;

/// Nanoseconds in a second.
pub const SEC: u64 = 1_000_000_000;

/// Nanoseconds in a minute.
pub const MINUTE: u64 = 60_000_000_000;

/// Nanoseconds in an hour.
pub const HOUR: u64 = 3_600_000_000_000;

/// Nanoseconds in a day of 24 hours.
pub const DAY: u64 = 86_400_000_000_000;

/// Nanoseconds in a week of 7 days.
pub const WEEK: u64 = 604_800_000_000_000;

/// Nanoseconds in a month, taken as 30 days.
pub const MONTH: u64 = 2_592_000_000_000_000;

/// Nanoseconds in a year, taken as 365 days.
pub const YEAR: u64 = 31_536_000_000_000_000;

/// Nanoseconds in a century of 100 years.
pub const CENTURY: u64 = 3_153_600_000_000_000_000;

/// Number of rows in the unit table.
pub const UNIT_COUNT: usize = 11;

/// The units of the duration grammar. Calendar units have fixed lengths:
/// a month is 30 days and a year 365 days.
#[derive(Clone, Copy, Debug, PartialEq, Eq, Structural)]
pub enum Unit {
    Century,
    Year,
    Month,
    Week,
    Day,
    Hour,
    Minute,
    Second,
    Millisecond,
    Microsecond,
    Nanosecond,
}

impl Unit {
    /// Length of the unit in nanoseconds.
    pub open spec fn factor(self) -> nat {
        match self {
            Unit::Century => CENTURY as nat,
            Unit::Year => YEAR as nat,
            Unit::Month => MONTH as nat,
            Unit::Week => WEEK as nat,
            Unit::Day => DAY as nat,
            Unit::Hour => HOUR as nat,
            Unit::Minute => MINUTE as nat,
            Unit::Second => SEC as nat,
            Unit::Millisecond => MILLI_SEC as nat,
            Unit::Microsecond => MICRO_SEC as nat,
            Unit::Nanosecond => 1,
        }
    }

    /// Length of the unit in nanoseconds.
    pub fn nanos(self) -> (r: u64)
        ensures
            r == self.factor(),
            r >= 1,
    {
        match self {
            Unit::Century => CENTURY,
            Unit::Year => YEAR,
            Unit::Month => MONTH,
            Unit::Week => WEEK,
            Unit::Day => DAY,
            Unit::Hour => HOUR,
            Unit::Minute => MINUTE,
            Unit::Second => SEC,
            Unit::Millisecond => MILLI_SEC,
            Unit::Microsecond => MICRO_SEC,
            Unit::Nanosecond => 1,
        }
    }

    /// Row `k` of the unit table, which runs from the largest unit to the
    /// smallest.
    pub open spec fn row(k: int) -> Unit {
        if k <= 0 {
            Unit::Century
        } else if k == 1 {
            Unit::Year
        } else if k == 2 {
            Unit::Month
        } else if k == 3 {
            Unit::Week
        } else if k == 4 {
            Unit::Day
        } else if k == 5 {
            Unit::Hour
        } else if k == 6 {
            Unit::Minute
        } else if k == 7 {
            Unit::Second
        } else if k == 8 {
            Unit::Millisecond
        } else if k == 9 {
            Unit::Microsecond
        } else {
            Unit::Nanosecond
        }
    }

    /// Row `k` of the unit table.
    pub fn at(k: usize) -> (u: Unit)
        requires
            k < UNIT_COUNT,
        ensures
            u == Unit::row(k as int),
    {
        match k {
            0 => Unit::Century,
            1 => Unit::Year,
            2 => Unit::Month,
            3 => Unit::Week,
            4 => Unit::Day,
            5 => Unit::Hour,
            6 => Unit::Minute,
            7 => Unit::Second,
            8 => Unit::Millisecond,
            9 => Unit::Microsecond,
            _ => Unit::Nanosecond,
        }
    }

    /// Calendar units are written with a space between count and keyword.
    pub open spec fn spaced(self) -> bool {
        match self {
            Unit::Century | Unit::Year | Unit::Month | Unit::Week | Unit::Day => true,
            _ => false,
        }
    }

    /// The keyword that names this unit in rendered text; calendar units take a
    /// plural form, clock units do not.
    pub open spec fn keyword(self, plural: bool) -> Seq<char> {
        match self {
            Unit::Century => if plural {
                seq!['c', 'e', 'n', 't', 'u', 'r', 'i', 'e', 's']
            } else {
                seq!['c', 'e', 'n', 't', 'u', 'r', 'y']
            },
            Unit::Year => if plural {
                seq!['y', 'e', 'a', 'r', 's']
            } else {
                seq!['y', 'e', 'a', 'r']
            },
            Unit::Month => if plural {
                seq!['m', 'o', 'n', 't', 'h', 's']
            } else {
                seq!['m', 'o', 'n', 't', 'h']
            },
            Unit::Week => if plural {
                seq!['w', 'e', 'e', 'k', 's']
            } else {
                seq!['w', 'e', 'e', 'k']
            },
            Unit::Day => if plural {
                seq!['d', 'a', 'y', 's']
            } else {
                seq!['d', 'a', 'y']
            },
            Unit::Hour => seq!['h'],
            Unit::Minute => seq!['m', 'i', 'n'],
            Unit::Second => seq!['s'],
            Unit::Millisecond => seq!['m', 's'],
            Unit::Microsecond => seq!['\u{3bc}', 's'],
            Unit::Nanosecond => seq!['n', 's'],
        }
    }

    /// Text written after a count of this unit: the keyword, after a space for
    /// calendar units.
    pub open spec fn suffix(self, plural: bool) -> Seq<char> {
        if self.spaced() {
            seq![' '] + self.keyword(plural)
        } else {
            self.keyword(plural)
        }
    }

    /// Text written after a count of this unit.
    pub fn suffix_text(self, plural: bool) -> (r: &'static str)
        ensures
            r@ == self.suffix(plural),
    {
        match self {
            Unit::Century => if plural {
                proof { reveal_strlit(" centuries"); }
                let r = " centuries";
                assert(r@ =~= self.suffix(plural));
                r
            } else {
                proof { reveal_strlit(" century"); }
                let r = " century";
                assert(r@ =~= self.suffix(plural));
                r
            },
            Unit::Year => if plural {
                proof { reveal_strlit(" years"); }
                let r = " years";
                assert(r@ =~= self.suffix(plural));
                r
            } else {
                proof { reveal_strlit(" year"); }
                let r = " year";
                assert(r@ =~= self.suffix(plural));
                r
            },
            Unit::Month => if plural {
                proof { reveal_strlit(" months"); }
                let r = " months";
                assert(r@ =~= self.suffix(plural));
                r
            } else {
                proof { reveal_strlit(" month"); }
                let r = " month";
                assert(r@ =~= self.suffix(plural));
                r
            },
            Unit::Week => if plural {
                proof { reveal_strlit(" weeks"); }
                let r = " weeks";
                assert(r@ =~= self.suffix(plural));
                r
            } else {
                proof { reveal_strlit(" week"); }
                let r = " week";
                assert(r@ =~= self.suffix(plural));
                r
            },
            Unit::Day => if plural {
                proof { reveal_strlit(" days"); }
                let r = " days";
                assert(r@ =~= self.suffix(plural));
                r
            } else {
                proof { reveal_strlit(" day"); }
                let r = " day";
                assert(r@ =~= self.suffix(plural));
                r
            },
            Unit::Hour => {
                proof { reveal_strlit("h"); }
                let r = "h";
                assert(r@ =~= self.suffix(plural));
                r
            },
            Unit::Minute => {
                proof { reveal_strlit("min"); }
                let r = "min";
                assert(r@ =~= self.suffix(plural));
                r
            },
            Unit::Second => {
                proof { reveal_strlit("s"); }
                let r = "s";
                assert(r@ =~= self.suffix(plural));
                r
            },
            Unit::Millisecond => {
                proof { reveal_strlit("ms"); }
                let r = "ms";
                assert(r@ =~= self.suffix(plural));
                r
            },
            Unit::Microsecond => {
                proof { reveal_strlit("\u{3bc}s"); }
                let r = "\u{3bc}s";
                assert(r@ =~= self.suffix(plural));
                r
            },
            Unit::Nanosecond => {
                proof { reveal_strlit("ns"); }
                let r = "ns";
                assert(r@ =~= self.suffix(plural));
                r
            },
        }
    }
}

} // verus!
