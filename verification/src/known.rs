//! The catalogue of protocol-reserved field names.
//!
//! Each name here is fixed by the journal's wire protocol and satisfies the
//! field naming rule; the `ensures` of every constructor proves it, and the
//! test suite re-validates each one at run time.

use crate::field::valid_field_chars;
use crate::field::Field;
use vstd::prelude::*;

verus! {

/// The entry's human-readable text.
pub fn message() -> (r: Field<'static>)
    ensures
        r@ == "MESSAGE"@,
        valid_field_chars(r@),
{
    proof {
        reveal_strlit("MESSAGE");
    }
    Field::unchecked("MESSAGE")
}

/// A 128-bit identifier for recognizing the message format.
pub fn message_id() -> (r: Field<'static>)
    ensures
        r@ == "MESSAGE_ID"@,
        valid_field_chars(r@),
{
    proof {
        reveal_strlit("MESSAGE_ID");
    }
    Field::unchecked("MESSAGE_ID")
}

/// The syslog-style severity of the entry.
pub fn priority() -> (r: Field<'static>)
    ensures
        r@ == "PRIORITY"@,
        valid_field_chars(r@),
{
    proof {
        reveal_strlit("PRIORITY");
    }
    Field::unchecked("PRIORITY")
}

/// The source file the entry originates from.
pub fn code_file() -> (r: Field<'static>)
    ensures
        r@ == "CODE_FILE"@,
        valid_field_chars(r@),
{
    proof {
        reveal_strlit("CODE_FILE");
    }
    Field::unchecked("CODE_FILE")
}

/// The source line the entry originates from.
pub fn code_line() -> (r: Field<'static>)
    ensures
        r@ == "CODE_LINE"@,
        valid_field_chars(r@),
{
    proof {
        reveal_strlit("CODE_LINE");
    }
    Field::unchecked("CODE_LINE")
}

/// The function the entry originates from.
pub fn code_func() -> (r: Field<'static>)
    ensures
        r@ == "CODE_FUNC"@,
        valid_field_chars(r@),
{
    proof {
        reveal_strlit("CODE_FUNC");
    }
    Field::unchecked("CODE_FUNC")
}

/// The error number of the failure being reported.
pub fn errno() -> (r: Field<'static>)
    ensures
        r@ == "ERRNO"@,
        valid_field_chars(r@),
{
    proof {
        reveal_strlit("ERRNO");
    }
    Field::unchecked("ERRNO")
}

/// The invocation identifier of the sending service.
pub fn invocation_id() -> (r: Field<'static>)
    ensures
        r@ == "INVOCATION_ID"@,
        valid_field_chars(r@),
{
    proof {
        reveal_strlit("INVOCATION_ID");
    }
    Field::unchecked("INVOCATION_ID")
}

/// The invocation identifier of the sending user service.
pub fn user_invocation_id() -> (r: Field<'static>)
    ensures
        r@ == "USER_INVOCATION_ID"@,
        valid_field_chars(r@),
{
    proof {
        reveal_strlit("USER_INVOCATION_ID");
    }
    Field::unchecked("USER_INVOCATION_ID")
}

/// The syslog facility number.
pub fn syslog_facility() -> (r: Field<'static>)
    ensures
        r@ == "SYSLOG_FACILITY"@,
        valid_field_chars(r@),
{
    proof {
        reveal_strlit("SYSLOG_FACILITY");
    }
    Field::unchecked("SYSLOG_FACILITY")
}

/// The syslog identifier string.
pub fn syslog_identifier() -> (r: Field<'static>)
    ensures
        r@ == "SYSLOG_IDENTIFIER"@,
        valid_field_chars(r@),
{
    proof {
        reveal_strlit("SYSLOG_IDENTIFIER");
    }
    Field::unchecked("SYSLOG_IDENTIFIER")
}

/// The process identifier as syslog reports it.
pub fn syslog_pid() -> (r: Field<'static>)
    ensures
        r@ == "SYSLOG_PID"@,
        valid_field_chars(r@),
{
    proof {
        reveal_strlit("SYSLOG_PID");
    }
    Field::unchecked("SYSLOG_PID")
}

/// The timestamp as syslog reports it.
pub fn syslog_timestamp() -> (r: Field<'static>)
    ensures
        r@ == "SYSLOG_TIMESTAMP"@,
        valid_field_chars(r@),
{
    proof {
        reveal_strlit("SYSLOG_TIMESTAMP");
    }
    Field::unchecked("SYSLOG_TIMESTAMP")
}

/// The full raw syslog line.
pub fn syslog_raw() -> (r: Field<'static>)
    ensures
        r@ == "SYSLOG_RAW"@,
        valid_field_chars(r@),
{
    proof {
        reveal_strlit("SYSLOG_RAW");
    }
    Field::unchecked("SYSLOG_RAW")
}

/// A documentation reference for the message.
pub fn documentation() -> (r: Field<'static>)
    ensures
        r@ == "DOCUMENTATION"@,
        valid_field_chars(r@),
{
    proof {
        reveal_strlit("DOCUMENTATION");
    }
    Field::unchecked("DOCUMENTATION")
}

/// The thread identifier of the sender.
pub fn tid() -> (r: Field<'static>)
    ensures
        r@ == "TID"@,
        valid_field_chars(r@),
{
    proof {
        reveal_strlit("TID");
    }
    Field::unchecked("TID")
}

/// The system unit the entry belongs to.
pub fn unit() -> (r: Field<'static>)
    ensures
        r@ == "UNIT"@,
        valid_field_chars(r@),
{
    proof {
        reveal_strlit("UNIT");
    }
    Field::unchecked("UNIT")
}

/// The user unit the entry belongs to.
pub fn user_unit() -> (r: Field<'static>)
    ensures
        r@ == "USER_UNIT"@,
        valid_field_chars(r@),
{
    proof {
        reveal_strlit("USER_UNIT");
    }
    Field::unchecked("USER_UNIT")
}

/// The unit a core dump belongs to.
pub fn coredump_unit() -> (r: Field<'static>)
    ensures
        r@ == "COREDUMP_UNIT"@,
        valid_field_chars(r@),
{
    proof {
        reveal_strlit("COREDUMP_UNIT");
    }
    Field::unchecked("COREDUMP_UNIT")
}

/// The user unit a core dump belongs to.
pub fn coredump_user_unit() -> (r: Field<'static>)
    ensures
        r@ == "COREDUMP_USER_UNIT"@,
        valid_field_chars(r@),
{
    proof {
        reveal_strlit("COREDUMP_USER_UNIT");
    }
    Field::unchecked("COREDUMP_USER_UNIT")
}

/// The process the entry is about, when logged on its behalf.
pub fn object_pid() -> (r: Field<'static>)
    ensures
        r@ == "OBJECT_PID"@,
        valid_field_chars(r@),
{
    proof {
        reveal_strlit("OBJECT_PID");
    }
    Field::unchecked("OBJECT_PID")
}

} // verus!
