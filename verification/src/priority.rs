//! The journal's severity levels.
//!
//! Eight syslog-style levels, carried on the wire as the textual value of
//! the well-known priority field: the single ASCII digits `"0"` through
//! `"7"`, in declared order.

use crate::field::valid_field_chars;
use crate::field::Field;
use vstd::prelude::*;

verus! {

/// A syslog-style severity level, from most to least urgent.
#[derive(Clone, Copy, Debug)]
pub enum Priority {
    Emergency,
    Alert,
    Critical,
    Error,
    Warning,
    Notice,
    Info,
    Debug,
}

/// The position of a level in the declared order, 0 through 7.
pub open spec fn priority_rank(p: Priority) -> int {
    match p {
        Priority::Emergency => 0,
        Priority::Alert => 1,
        Priority::Critical => 2,
        Priority::Error => 3,
        Priority::Warning => 4,
        Priority::Notice => 5,
        Priority::Info => 6,
        Priority::Debug => 7,
    }
}

/// The single digit carrying a level on the wire.
pub open spec fn priority_digit(p: Priority) -> char {
    match p {
        Priority::Emergency => '0',
        Priority::Alert => '1',
        Priority::Critical => '2',
        Priority::Error => '3',
        Priority::Warning => '4',
        Priority::Notice => '5',
        Priority::Info => '6',
        Priority::Debug => '7',
    }
}

/// Law: the levels map one-to-one, in declared order, onto the digits `'0'`
/// through `'7'`: each level's digit sits `priority_rank` places past `'0'`,
/// and distinct levels never share a digit.
pub proof fn lemma_priority_digits_bijective(p1: Priority, p2: Priority)
    ensures
        priority_digit(p1) as u32 == '0' as u32 + priority_rank(p1),
        0 <= priority_rank(p1) <= 7,
        priority_digit(p1) == priority_digit(p2) ==> p1 == p2,
{
}

/// Law: every digit `'0'` through `'7'` is the image of some level, so the
/// mapping of [`lemma_priority_digits_bijective`] is onto the eight digit
/// strings.
pub proof fn lemma_priority_digits_onto(d: char)
    requires
        '0' <= d && d <= '7',
    ensures
        exists|p: Priority| priority_digit(p) == d,
{
    if d == '0' {
        assert(priority_digit(Priority::Emergency) == d);
    } else if d == '1' {
        assert(priority_digit(Priority::Alert) == d);
    } else if d == '2' {
        assert(priority_digit(Priority::Critical) == d);
    } else if d == '3' {
        assert(priority_digit(Priority::Error) == d);
    } else if d == '4' {
        assert(priority_digit(Priority::Warning) == d);
    } else if d == '5' {
        assert(priority_digit(Priority::Notice) == d);
    } else if d == '6' {
        assert(priority_digit(Priority::Info) == d);
    } else {
        assert(d == '7');
        assert(priority_digit(Priority::Debug) == d);
    }
}

impl Priority {
    /// The digit string for this level.
    pub fn as_str(&self) -> (r: &'static str)
        ensures
            r@ == seq![priority_digit(*self)],
    {
        proof {
            reveal_strlit("0");
            reveal_strlit("1");
            reveal_strlit("2");
            reveal_strlit("3");
            reveal_strlit("4");
            reveal_strlit("5");
            reveal_strlit("6");
            reveal_strlit("7");
        }
        let r = match self {
            Priority::Emergency => "0",
            Priority::Alert => "1",
            Priority::Critical => "2",
            Priority::Error => "3",
            Priority::Warning => "4",
            Priority::Notice => "5",
            Priority::Info => "6",
            Priority::Debug => "7",
        };
        proof {
            assert(r@ =~= seq![priority_digit(*self)]);
        }
        r
    }

    /// This level as a ready-made (field, value) pair for a journal entry.
    pub fn as_value(&self) -> (r: (Field<'static>, &'static str))
        ensures
            r.0@ == "PRIORITY"@,
            valid_field_chars(r.0@),
            r.1@ == seq![priority_digit(*self)],
    {
        (crate::known::priority(), self.as_str())
    }
}

} // verus!
