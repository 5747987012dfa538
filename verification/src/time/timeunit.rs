//! Units of time and durations written as a number followed by a unit.

use vstd::prelude::*;
use crate::text::{all_digits, char_is_digit, decimal, is_digit, parse_decimal, same_text, to_chars};
use crate::time::error::Error;

verus! {

/// A unit in which a duration is counted.
#[derive(Debug, Clone, Copy, PartialEq, Eq, Structural)]
pub enum TimeUnit {
    Nanosecond,
    Microsecond,
    Millisecond,
    Second,
    Minute,
    Hour,
    Day,
}

/// A count of units of time, as a duration literal states it.
#[derive(Debug, Clone, Copy, PartialEq, Eq, Structural)]
pub struct DurationUnit {
    pub value: u64,
    pub unit: TimeUnit,
}

/// A span of time in whole nanoseconds.
#[derive(Debug, Clone, Copy, PartialEq, Eq, Structural)]
pub struct Duration {
    pub nanos: u128,
}

/// The unit that a name stands for, in any of the spellings that are
/// understood.
pub open spec fn unit_of_name(name: Seq<char>) -> Option<TimeUnit> {
    if name == "ns"@ || name == "nanosecond"@ || name == "nanos"@ || name == "nanoseconds"@ {
        Some(TimeUnit::Nanosecond)
    } else if name == "us"@ || name == "microsecond"@ || name == "micros"@ || name
        == "microseconds"@ {
        Some(TimeUnit::Microsecond)
    } else if name == "ms"@ || name == "millisecond"@ || name == "millis"@ || name
        == "milliseconds"@ {
        Some(TimeUnit::Millisecond)
    } else if name == "s"@ || name == "second"@ || name == "secs"@ || name == "seconds"@ {
        Some(TimeUnit::Second)
    } else if name == "m"@ || name == "minute"@ || name == "mins"@ || name == "minutes"@ {
        Some(TimeUnit::Minute)
    } else if name == "h"@ || name == "hour"@ || name == "hours"@ {
        Some(TimeUnit::Hour)
    } else if name == "d"@ || name == "day"@ || name == "days"@ {
        Some(TimeUnit::Day)
    } else {
        None
    }
}

/// The unit that a suffix of a duration literal stands for: one of `ns`,
/// `us`, `ms`, `s`, `m`, `h`, `d`.
pub open spec fn unit_of_suffix(suffix: Seq<char>) -> Option<TimeUnit> {
    if suffix == seq!['n', 's'] {
        Some(TimeUnit::Nanosecond)
    } else if suffix == seq!['u', 's'] {
        Some(TimeUnit::Microsecond)
    } else if suffix == seq!['m', 's'] {
        Some(TimeUnit::Millisecond)
    } else if suffix == seq!['s'] {
        Some(TimeUnit::Second)
    } else if suffix == seq!['m'] {
        Some(TimeUnit::Minute)
    } else if suffix == seq!['h'] {
        Some(TimeUnit::Hour)
    } else if suffix == seq!['d'] {
        Some(TimeUnit::Day)
    } else {
        None
    }
}

/// How many digits `s` starts with.
pub open spec fn leading_digits(s: Seq<char>) -> nat
    decreases s.len(),
{
    if s.len() > 0 && is_digit(s[0]) {
        1 + leading_digits(s.skip(1))
    } else {
        0
    }
}

/// What a text means as a duration literal: its leading digits as a number
/// and the rest as a unit, where there is at least one digit and the rest is
/// a unit suffix.
pub open spec fn duration_literal(s: Seq<char>) -> Option<(nat, TimeUnit)> {
    let k = leading_digits(s) as int;
    if k == 0 {
        None
    } else {
        match unit_of_suffix(s.skip(k)) {
            Some(unit) => Some((decimal(s.take(k)), unit)),
            None => None,
        }
    }
}

/// The number of nanoseconds in one unit.
pub open spec fn unit_nanos(unit: TimeUnit) -> nat {
    match unit {
        TimeUnit::Nanosecond => 1,
        TimeUnit::Microsecond => 1_000,
        TimeUnit::Millisecond => 1_000_000,
        TimeUnit::Second => 1_000_000_000,
        TimeUnit::Minute => 60_000_000_000,
        TimeUnit::Hour => 3_600_000_000_000,
        TimeUnit::Day => 86_400_000_000_000,
    }
}

/// The message of the error for a text that is no duration literal.
pub open spec fn not_a_duration() -> Seq<char> {
    "Current string is not correct duration unit value"@
}

/// The message of the error for a name that is no unit.
pub open spec fn not_a_unit(name: Seq<char>) -> Seq<char> {
    "Unit '"@ + name + "' not supported"@
}

/// A prefix of digits that is followed by no digit is the leading digits.
pub proof fn lemma_leading_digits_is(s: Seq<char>, k: int)
    requires
        0 <= k <= s.len(),
        all_digits(s.take(k)),
        k < s.len() ==> !is_digit(s[k]),
    ensures
        leading_digits(s) == k,
    decreases s.len(),
{
    if k > 0 {
        assert(s.take(k)[0] == s[0]);
        let rest = s.skip(1);
        assert forall|i: int| 0 <= i < k - 1 implies is_digit(#[trigger] rest.take(k - 1)[i]) by {
            assert(rest.take(k - 1)[i] == s.take(k)[i + 1]);
        }
        if k < s.len() {
            assert(rest[k - 1] == s[k]);
        }
        lemma_leading_digits_is(rest, k - 1);
    }
}

impl TimeUnit {
    /// Reads the name of a unit.
    ///
    /// Any spelling that [`unit_of_name`] knows gives its unit; any other
    /// text gives `UnitNotSupported` with a message that quotes the text.
    pub fn from_str(s: &str) -> (r: Result<TimeUnit, Error>)
        ensures
            match unit_of_name(s@) {
                Some(unit) => r == Ok::<TimeUnit, Error>(unit),
                None => r matches Err(Error::UnitNotSupported(m)) && m@ == not_a_unit(s@),
            },
    {
        if same_text(s, "ns") || same_text(s, "nanosecond") || same_text(s, "nanos") || same_text(
            s,
            "nanoseconds",
        ) {
            Ok(TimeUnit::Nanosecond)
        } else if same_text(s, "us") || same_text(s, "microsecond") || same_text(s, "micros")
            || same_text(s, "microseconds") {
            Ok(TimeUnit::Microsecond)
        } else if same_text(s, "ms") || same_text(s, "millisecond") || same_text(s, "millis")
            || same_text(s, "milliseconds") {
            Ok(TimeUnit::Millisecond)
        } else if same_text(s, "s") || same_text(s, "second") || same_text(s, "secs") || same_text(
            s,
            "seconds",
        ) {
            Ok(TimeUnit::Second)
        } else if same_text(s, "m") || same_text(s, "minute") || same_text(s, "mins") || same_text(
            s,
            "minutes",
        ) {
            Ok(TimeUnit::Minute)
        } else if same_text(s, "h") || same_text(s, "hour") || same_text(s, "hours") {
            Ok(TimeUnit::Hour)
        } else if same_text(s, "d") || same_text(s, "day") || same_text(s, "days") {
            Ok(TimeUnit::Day)
        } else {
            let mut message = String::from_str("Unit '");
            message.append(s);
            message.append("' not supported");
            Err(Error::UnitNotSupported(message))
        }
    }
}

/// Reads a unit suffix of one or two characters.
fn suffix_unit(s: &Vec<char>, from: usize, len: usize) -> (r: Option<TimeUnit>)
    requires
        from <= len == s@.len(),
    ensures
        r == unit_of_suffix(s@.skip(from as int)),
{
    let ghost suffix = s@.skip(from as int);
    if len - from == 1 {
        let c = s[from];
        assert(suffix =~= seq![c]);
        assert(seq![c][0] == c);
        if c == 's' {
            Some(TimeUnit::Second)
        } else if c == 'm' {
            Some(TimeUnit::Minute)
        } else if c == 'h' {
            Some(TimeUnit::Hour)
        } else if c == 'd' {
            Some(TimeUnit::Day)
        } else {
            assert(suffix[0] == c);
            None
        }
    } else if len - from == 2 {
        let c = s[from];
        let d = s[from + 1];
        assert(suffix =~= seq![c, d]);
        assert(suffix[0] == c && suffix[1] == d);
        if d == 's' && c == 'n' {
            Some(TimeUnit::Nanosecond)
        } else if d == 's' && c == 'u' {
            Some(TimeUnit::Microsecond)
        } else if d == 's' && c == 'm' {
            Some(TimeUnit::Millisecond)
        } else {
            None
        }
    } else {
        assert(suffix.len() != 1 && suffix.len() != 2);
        None
    }
}

impl DurationUnit {
    /// Reads a duration literal: one or more digits and then one of the
    /// suffixes `ns`, `us`, `ms`, `s`, `m`, `h`, `d`.
    ///
    /// Any other text, and a number that does not fit in 64 bits, give
    /// `Syntax`.
    pub fn from_str(s: &str) -> (r: Result<DurationUnit, Error>)
        ensures
            match duration_literal(s@) {
                Some((value, unit)) if value <= u64::MAX => r == Ok::<DurationUnit, Error>(
                    DurationUnit { value: value as u64, unit },
                ),
                _ => r matches Err(Error::Syntax(m)) && m@ == not_a_duration(),
            },
    {
        let chars = to_chars(s);
        let len = chars.len();
        let mut k: usize = 0;
        while k < len && char_is_digit(chars[k])
            invariant
                k <= len == s@.len(),
                chars@ == s@,
                all_digits(s@.take(k as int)),
            decreases len - k,
        {
            assert(s@.take(k + 1).drop_last() =~= s@.take(k as int));
            k += 1;
        }
        proof {
            lemma_leading_digits_is(s@, k as int);
        }
        if k == 0 {
            return Err(Error::Syntax(String::from_str("Current string is not correct duration unit value")));
        }
        let unit = match suffix_unit(&chars, k, len) {
            Some(unit) => unit,
            None => {
                return Err(Error::Syntax(String::from_str("Current string is not correct duration unit value")));
            },
        };
        assert(s@.subrange(0, k as int) =~= s@.take(k as int));
        match parse_decimal(&chars, 0, k) {
            Some(value) => Ok(DurationUnit { value, unit }),
            None => Err(Error::Syntax(String::from_str("Current string is not correct duration unit value"))),
        }
    }

    /// The span of time that this count of units lasts.
    pub fn into_duration(self) -> (r: Duration)
        ensures
            r.nanos == self.value * unit_nanos(self.unit),
    {
        let factor: u128 = match self.unit {
            TimeUnit::Nanosecond => 1,
            TimeUnit::Microsecond => 1_000,
            TimeUnit::Millisecond => 1_000_000,
            TimeUnit::Second => 1_000_000_000,
            TimeUnit::Minute => 60_000_000_000,
            TimeUnit::Hour => 3_600_000_000_000,
            TimeUnit::Day => 86_400_000_000_000,
        };
        assert(self.value * factor <= 0xffff_ffff_ffff_ffff * 86_400_000_000_000) by (nonlinear_arith)
            requires
                self.value <= 0xffff_ffff_ffff_ffff,
                factor <= 86_400_000_000_000,
        ;
        Duration { nanos: self.value as u128 * factor }
    }
}

impl Duration {
    /// The span of `millis` milliseconds.
    pub fn from_millis(millis: u64) -> (r: Duration)
        ensures
            r.nanos == millis * 1_000_000,
    {
        Duration { nanos: millis as u128 * 1_000_000 }
    }

    /// The span of `secs` seconds.
    pub fn from_secs(secs: u64) -> (r: Duration)
        ensures
            r.nanos == secs * 1_000_000_000,
    {
        Duration { nanos: secs as u128 * 1_000_000_000 }
    }

    /// The span of no time.
    pub fn zero() -> (r: Duration)
        ensures
            r.nanos == 0,
    {
        Duration { nanos: 0 }
    }

    /// Whether the span is empty.
    pub fn is_zero(&self) -> (r: bool)
        ensures
            r == (self.nanos == 0),
    {
        self.nanos == 0
    }

    /// The whole milliseconds in the span.
    pub fn as_millis(&self) -> (r: u128)
        ensures
            r == self.nanos / 1_000_000,
    {
        self.nanos / 1_000_000
    }
}

impl core::str::FromStr for TimeUnit {
    type Err = Error;

    fn from_str(s: &str) -> (r: Result<TimeUnit, Error>)
        ensures
            match unit_of_name(s@) {
                Some(unit) => r == Ok::<TimeUnit, Error>(unit),
                None => r matches Err(Error::UnitNotSupported(m)) && m@ == not_a_unit(s@),
            },
    {
        TimeUnit::from_str(s)
    }
}

impl core::str::FromStr for DurationUnit {
    type Err = Error;

    fn from_str(s: &str) -> (r: Result<DurationUnit, Error>)
        ensures
            match duration_literal(s@) {
                Some((value, unit)) if value <= u64::MAX => r == Ok::<DurationUnit, Error>(
                    DurationUnit { value: value as u64, unit },
                ),
                _ => r matches Err(Error::Syntax(m)) && m@ == not_a_duration(),
            },
    {
        DurationUnit::from_str(s)
    }
}

impl From<DurationUnit> for Duration {
    fn from(unit: DurationUnit) -> (r: Duration) {
        unit.into_duration()
    }
}

impl vstd::std_specs::convert::FromSpecImpl<DurationUnit> for Duration {
    open spec fn obeys_from_spec() -> bool {
        true
    }

    open spec fn from_spec(unit: DurationUnit) -> Duration {
        Duration { nanos: (unit.value * unit_nanos(unit.unit)) as u128 }
    }
}

} // verus!
