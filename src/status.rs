//! Completion status of a call: the closed set of RPC status codes, their
//! canonical names, and how a response's status header is decoded.

use vstd::prelude::*;

verus! {

/// The RPC status codes, in the order of their numeric values 0 to 16.
#[derive(Clone, Copy, Debug, PartialEq, Eq, Structural)]
pub enum StatusCode {
    Okay,
    Cancelled,
    Unknown,
    InvalidArgument,
    DeadlineExceeded,
    NotFound,
    AlreadyExists,
    PermissionDenied,
    ResourceExhausted,
    FailedPrecondition,
    Aborted,
    OutOfRange,
    Unimplemented,
    Internal,
    Unavailable,
    DataLoss,
    Unauthenticated,
}

/// The code with a given numeric value; values outside 0..=16 are `Unknown`.
pub open spec fn code_of_number(n: int) -> StatusCode {
    if n == 0 { StatusCode::Okay }
    else if n == 1 { StatusCode::Cancelled }
    else if n == 3 { StatusCode::InvalidArgument }
    else if n == 4 { StatusCode::DeadlineExceeded }
    else if n == 5 { StatusCode::NotFound }
    else if n == 6 { StatusCode::AlreadyExists }
    else if n == 7 { StatusCode::PermissionDenied }
    else if n == 8 { StatusCode::ResourceExhausted }
    else if n == 9 { StatusCode::FailedPrecondition }
    else if n == 10 { StatusCode::Aborted }
    else if n == 11 { StatusCode::OutOfRange }
    else if n == 12 { StatusCode::Unimplemented }
    else if n == 13 { StatusCode::Internal }
    else if n == 14 { StatusCode::Unavailable }
    else if n == 15 { StatusCode::DataLoss }
    else if n == 16 { StatusCode::Unauthenticated }
    else { StatusCode::Unknown }
}

/// Is `b` an ASCII decimal digit?
pub open spec fn is_digit(b: u8) -> bool {
    48 <= b <= 57
}

/// The number written by a wire-form status value: one digit `0`-`9`, or a
/// `1` followed by a digit `0`-`6`; `None` for anything else.
pub open spec fn wire_number(v: Seq<u8>) -> Option<int> {
    if v.len() == 1 && is_digit(v[0]) {
        Some(v[0] - 48)
    } else if v.len() == 2 && v[0] == 49 && 48 <= v[1] <= 54 {
        Some(10 + v[1] - 48)
    } else {
        None
    }
}

/// The numeric value that a wire-form status value decodes to: the number it
/// writes, or 2 (`Unknown`) where it writes none.
pub open spec fn wire_code_number(v: Seq<u8>) -> int {
    match wire_number(v) {
        Some(n) => n,
        None => 2,
    }
}

/// Relies on tonic's `Code::from_bytes`, which reads the numeric wire form of
/// a status (`"0"` to `"16"`) and gives `Code::Unknown` for any other value,
/// and on `i32::from(Code)`, which gives the code's numeric value.
#[verifier::external_body]
fn wire_code(v: &[u8]) -> (r: i32)
    ensures
        r as int == wire_code_number(v@),
{
    i32::from(tonic::Code::from_bytes(v))
}

impl StatusCode {
    /// The code with numeric value `n`; values outside 0..=16 give `Unknown`.
    pub fn from_number(n: i32) -> (r: StatusCode)
        ensures
            r == code_of_number(n as int),
    {
        match n {
            0 => StatusCode::Okay,
            1 => StatusCode::Cancelled,
            3 => StatusCode::InvalidArgument,
            4 => StatusCode::DeadlineExceeded,
            5 => StatusCode::NotFound,
            6 => StatusCode::AlreadyExists,
            7 => StatusCode::PermissionDenied,
            8 => StatusCode::ResourceExhausted,
            9 => StatusCode::FailedPrecondition,
            10 => StatusCode::Aborted,
            11 => StatusCode::OutOfRange,
            12 => StatusCode::Unimplemented,
            13 => StatusCode::Internal,
            14 => StatusCode::Unavailable,
            15 => StatusCode::DataLoss,
            16 => StatusCode::Unauthenticated,
            _ => StatusCode::Unknown,
        }
    }

    /// The canonical name of the code (`"OK"`, `"NOT_FOUND"`, ...), as used
    /// in metric labels.
    pub fn name(&self) -> (r: &'static str)
        ensures
            r@ == code_name(*self),
    {
        match self {
            StatusCode::Okay => {
                proof { reveal_strlit("OK"); }
                "OK"
            },
            StatusCode::Cancelled => {
                proof { reveal_strlit("CANCELLED"); }
                "CANCELLED"
            },
            StatusCode::Unknown => {
                proof { reveal_strlit("UNKNOWN"); }
                "UNKNOWN"
            },
            StatusCode::InvalidArgument => {
                proof { reveal_strlit("INVALID_ARGUMENT"); }
                "INVALID_ARGUMENT"
            },
            StatusCode::DeadlineExceeded => {
                proof { reveal_strlit("DEADLINE_EXCEEDED"); }
                "DEADLINE_EXCEEDED"
            },
            StatusCode::NotFound => {
                proof { reveal_strlit("NOT_FOUND"); }
                "NOT_FOUND"
            },
            StatusCode::AlreadyExists => {
                proof { reveal_strlit("ALREADY_EXISTS"); }
                "ALREADY_EXISTS"
            },
            StatusCode::PermissionDenied => {
                proof { reveal_strlit("PERMISSION_DENIED"); }
                "PERMISSION_DENIED"
            },
            StatusCode::ResourceExhausted => {
                proof { reveal_strlit("RESOURCE_EXHAUSTED"); }
                "RESOURCE_EXHAUSTED"
            },
            StatusCode::FailedPrecondition => {
                proof { reveal_strlit("FAILED_PRECONDITION"); }
                "FAILED_PRECONDITION"
            },
            StatusCode::Aborted => {
                proof { reveal_strlit("ABORTED"); }
                "ABORTED"
            },
            StatusCode::OutOfRange => {
                proof { reveal_strlit("OUT_OF_RANGE"); }
                "OUT_OF_RANGE"
            },
            StatusCode::Unimplemented => {
                proof { reveal_strlit("UNIMPLEMENTED"); }
                "UNIMPLEMENTED"
            },
            StatusCode::Internal => {
                proof { reveal_strlit("INTERNAL"); }
                "INTERNAL"
            },
            StatusCode::Unavailable => {
                proof { reveal_strlit("UNAVAILABLE"); }
                "UNAVAILABLE"
            },
            StatusCode::DataLoss => {
                proof { reveal_strlit("DATA_LOSS"); }
                "DATA_LOSS"
            },
            StatusCode::Unauthenticated => {
                proof { reveal_strlit("UNAUTHENTICATED"); }
                "UNAUTHENTICATED"
            },
        }
    }
}

/// The canonical upper-case name of each status code.
pub open spec fn code_name(c: StatusCode) -> Seq<char> {
    match c {
        StatusCode::Okay => "OK"@,
        StatusCode::Cancelled => "CANCELLED"@,
        StatusCode::Unknown => "UNKNOWN"@,
        StatusCode::InvalidArgument => "INVALID_ARGUMENT"@,
        StatusCode::DeadlineExceeded => "DEADLINE_EXCEEDED"@,
        StatusCode::NotFound => "NOT_FOUND"@,
        StatusCode::AlreadyExists => "ALREADY_EXISTS"@,
        StatusCode::PermissionDenied => "PERMISSION_DENIED"@,
        StatusCode::ResourceExhausted => "RESOURCE_EXHAUSTED"@,
        StatusCode::FailedPrecondition => "FAILED_PRECONDITION"@,
        StatusCode::Aborted => "ABORTED"@,
        StatusCode::OutOfRange => "OUT_OF_RANGE"@,
        StatusCode::Unimplemented => "UNIMPLEMENTED"@,
        StatusCode::Internal => "INTERNAL"@,
        StatusCode::Unavailable => "UNAVAILABLE"@,
        StatusCode::DataLoss => "DATA_LOSS"@,
        StatusCode::Unauthenticated => "UNAUTHENTICATED"@,
    }
}

/// Do the bytes `v` spell the characters `name`, one byte per character?
pub open spec fn spells(v: Seq<u8>, name: Seq<char>) -> bool {
    v.len() == name.len() && forall|i: int| 0 <= i < v.len() ==> v[i] as u32 == name[i] as u32
}

/// The first code, in numeric order from `n` on, whose canonical name the
/// bytes `v` spell.
pub open spec fn named_from(v: Seq<u8>, n: int) -> Option<StatusCode>
    decreases 17 - n,
{
    if n < 0 || n > 16 {
        None
    } else if spells(v, code_name(code_of_number(n))) {
        Some(code_of_number(n))
    } else {
        named_from(v, n + 1)
    }
}

/// The code whose canonical name the bytes `v` spell, if any.
pub open spec fn code_named(v: Seq<u8>) -> Option<StatusCode> {
    named_from(v, 0)
}

/// The status that a status header value stands for: its numeric wire form
/// where it has one, else the code it names, else `Unknown`.
pub open spec fn header_status(v: Seq<u8>) -> StatusCode {
    match wire_number(v) {
        Some(n) => code_of_number(n),
        None => match code_named(v) {
            Some(c) => c,
            None => StatusCode::Unknown,
        },
    }
}

/// Every canonical name starts with an upper-case letter.
proof fn lemma_name_starts_with_letter(c: StatusCode)
    ensures
        code_name(c).len() > 0,
        65 <= code_name(c)[0] as u32 <= 90,
{
    match c {
        StatusCode::Okay => {
            reveal_strlit("OK");
        },
        StatusCode::Cancelled => {
            reveal_strlit("CANCELLED");
        },
        StatusCode::Unknown => {
            reveal_strlit("UNKNOWN");
        },
        StatusCode::InvalidArgument => {
            reveal_strlit("INVALID_ARGUMENT");
        },
        StatusCode::DeadlineExceeded => {
            reveal_strlit("DEADLINE_EXCEEDED");
        },
        StatusCode::NotFound => {
            reveal_strlit("NOT_FOUND");
        },
        StatusCode::AlreadyExists => {
            reveal_strlit("ALREADY_EXISTS");
        },
        StatusCode::PermissionDenied => {
            reveal_strlit("PERMISSION_DENIED");
        },
        StatusCode::ResourceExhausted => {
            reveal_strlit("RESOURCE_EXHAUSTED");
        },
        StatusCode::FailedPrecondition => {
            reveal_strlit("FAILED_PRECONDITION");
        },
        StatusCode::Aborted => {
            reveal_strlit("ABORTED");
        },
        StatusCode::OutOfRange => {
            reveal_strlit("OUT_OF_RANGE");
        },
        StatusCode::Unimplemented => {
            reveal_strlit("UNIMPLEMENTED");
        },
        StatusCode::Internal => {
            reveal_strlit("INTERNAL");
        },
        StatusCode::Unavailable => {
            reveal_strlit("UNAVAILABLE");
        },
        StatusCode::DataLoss => {
            reveal_strlit("DATA_LOSS");
        },
        StatusCode::Unauthenticated => {
            reveal_strlit("UNAUTHENTICATED");
        },
    }
}

/// A value that starts with a digit names no code.
proof fn lemma_digit_names_nothing(v: Seq<u8>, n: int)
    requires
        v.len() > 0,
        is_digit(v[0]),
    ensures
        named_from(v, n) is None,
    decreases 17 - n,
{
    if 0 <= n <= 16 {
        lemma_name_starts_with_letter(code_of_number(n));
        assert(!spells(v, code_name(code_of_number(n))));
        lemma_digit_names_nothing(v, n + 1);
    }
}

/// Do the bytes `v` spell the characters of `name`, one byte per character?
pub fn spells_name(v: &[u8], name: &str) -> (r: bool)
    ensures
        r == spells(v@, name@),
{
    let len = name.unicode_len();
    if v.len() != len {
        return false;
    }
    let mut i: usize = 0;
    while i < len
        invariant
            len == name@.len(),
            v@.len() == len,
            i <= len,
            forall|j: int| 0 <= j < i ==> v@[j] as u32 == name@[j] as u32,
        decreases len - i,
    {
        if v[i] as u32 != name.get_char(i) as u32 {
            return false;
        }
        i = i + 1;
    }
    true
}

/// The code whose canonical name the bytes `v` spell, if any.
pub fn code_named_by(v: &[u8]) -> (r: Option<StatusCode>)
    ensures
        r == code_named(v@),
{
    let mut n: i32 = 0;
    while n <= 16
        invariant
            0 <= n <= 17,
            named_from(v@, 0) == named_from(v@, n as int),
        decreases 17 - n,
    {
        let c = StatusCode::from_number(n);
        if spells_name(v, c.name()) {
            return Some(c);
        }
        n = n + 1;
    }
    None
}

/// Decodes a response's status header value: the numeric wire form (`"5"`)
/// through tonic, else a canonical name (`"NOT_FOUND"`); anything else is
/// `Unknown`.
pub fn status_from_header(v: &[u8]) -> (r: StatusCode)
    ensures
        r == header_status(v@),
{
    let n = wire_code(v);
    if n != 2 {
        return StatusCode::from_number(n);
    }
    proof {
        if wire_number(v@) is Some {
            lemma_digit_names_nothing(v@, 0);
        }
    }
    match code_named_by(v) {
        Some(c) => c,
        None => StatusCode::Unknown,
    }
}

} // verus!
