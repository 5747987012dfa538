//! The options of the command line.

use vstd::prelude::*;
use crate::text::to_chars;

verus! {

/// How much is logged.
#[derive(Debug, Clone, Copy, PartialEq, Eq, Structural)]
pub enum LogLevel {
    Off,
    Error,
    Warn,
    Info,
    Debug,
    Trace,
}

/// The options that a run is started with.
#[derive(Debug)]
pub struct Opt {
    /// The path of the manifest.
    pub file: String,
    /// How much is logged; as much as `Info` where nothing is said.
    pub logging: Option<LogLevel>,
    /// The path of the file that takes the log beside the console.
    pub log_output_file: Option<String>,
    /// How many workers run side by side.
    pub threads: Option<usize>,
    /// The groups to run; all of them where none is named.
    pub groups: Vec<String>,
}

/// The code of a character, with the capital letters `A` to `Z` taken for
/// their small ones.
pub open spec fn folded(c: char) -> u32 {
    if 'A' <= c && c <= 'Z' {
        (c as u32 + 32) as u32
    } else {
        c as u32
    }
}

/// Whether two texts are the same but for the case of the letters `a` to
/// `z`.
pub open spec fn same_but_case(a: Seq<char>, b: Seq<char>) -> bool {
    a.len() == b.len() && forall|i: int| 0 <= i < a.len() ==> folded(#[trigger] a[i]) == folded(b[i])
}

/// The level that a name stands for, whatever the case of its letters.
pub open spec fn level_of(name: Seq<char>) -> Option<LogLevel> {
    if same_but_case(name, "off"@) {
        Some(LogLevel::Off)
    } else if same_but_case(name, "error"@) {
        Some(LogLevel::Error)
    } else if same_but_case(name, "warn"@) {
        Some(LogLevel::Warn)
    } else if same_but_case(name, "info"@) {
        Some(LogLevel::Info)
    } else if same_but_case(name, "debug"@) {
        Some(LogLevel::Debug)
    } else if same_but_case(name, "trace"@) {
        Some(LogLevel::Trace)
    } else {
        None
    }
}

/// The code of a character, with capital letters taken for small ones.
fn fold(c: char) -> (r: u32)
    ensures
        r == folded(c),
{
    if 'A' <= c && c <= 'Z' {
        c as u32 + 32
    } else {
        c as u32
    }
}

/// Whether two texts are the same but for the case of their letters.
pub fn equals_ignoring_case(a: &str, b: &str) -> (r: bool)
    ensures
        r == same_but_case(a@, b@),
{
    let left = to_chars(a);
    let right = to_chars(b);
    if left.len() != right.len() {
        return false;
    }
    let mut i: usize = 0;
    while i < left.len()
        invariant
            i <= left.len(),
            left.len() == right.len(),
            left@ == a@,
            right@ == b@,
            forall|j: int| 0 <= j < i ==> folded(#[trigger] a@[j]) == folded(b@[j]),
        decreases left.len() - i,
    {
        if fold(left[i]) != fold(right[i]) {
            return false;
        }
        i += 1;
    }
    true
}

impl LogLevel {
    /// The level that a name stands for, whatever the case of its letters;
    /// `None` for any other text.
    pub fn from_name(name: &str) -> (r: Option<LogLevel>)
        ensures
            r == level_of(name@),
    {
        if equals_ignoring_case(name, "off") {
            Some(LogLevel::Off)
        } else if equals_ignoring_case(name, "error") {
            Some(LogLevel::Error)
        } else if equals_ignoring_case(name, "warn") {
            Some(LogLevel::Warn)
        } else if equals_ignoring_case(name, "info") {
            Some(LogLevel::Info)
        } else if equals_ignoring_case(name, "debug") {
            Some(LogLevel::Debug)
        } else if equals_ignoring_case(name, "trace") {
            Some(LogLevel::Trace)
        } else {
            None
        }
    }

    /// How grave a message must be to be logged: 0 logs nothing, 5
    /// everything.
    pub open spec fn rank(self) -> nat {
        match self {
            LogLevel::Off => 0,
            LogLevel::Error => 1,
            LogLevel::Warn => 2,
            LogLevel::Info => 3,
            LogLevel::Debug => 4,
            LogLevel::Trace => 5,
        }
    }

    /// How grave a message must be to be logged: 0 logs nothing, 5
    /// everything.
    pub fn filter(&self) -> (r: u8)
        ensures
            r == self.rank(),
    {
        match self {
            LogLevel::Off => 0,
            LogLevel::Error => 1,
            LogLevel::Warn => 2,
            LogLevel::Info => 3,
            LogLevel::Debug => 4,
            LogLevel::Trace => 5,
        }
    }
}

impl Opt {
    /// The level at which the run logs.
    pub fn level(&self) -> (r: LogLevel)
        ensures
            r == (match self.logging {
                Some(level) => level,
                None => LogLevel::Info,
            }),
    {
        match self.logging {
            Some(level) => level,
            None => LogLevel::Info,
        }
    }
}

} // verus!
