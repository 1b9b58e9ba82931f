//! Native status codes, reported by the handle layer and passed through to
//! callers verbatim.
//!
//! The convention mirrors the usual native one: zero is success, a positive
//! code means an operation is still pending, and a negative code is an
//! error.  This layer never judges whether an error code is fatal; that
//! belongs to the caller or to the native layer's own contract.

use vstd::prelude::*;
use vstd::string::StringExecFns;

verus! {

/// The character for one decimal digit.
pub open spec fn spec_digit(d: nat) -> char {
    if d == 0 {
        '0'
    } else if d == 1 {
        '1'
    } else if d == 2 {
        '2'
    } else if d == 3 {
        '3'
    } else if d == 4 {
        '4'
    } else if d == 5 {
        '5'
    } else if d == 6 {
        '6'
    } else if d == 7 {
        '7'
    } else if d == 8 {
        '8'
    } else {
        '9'
    }
}

/// The decimal rendering of a natural number, most significant digit
/// first.
pub open spec fn spec_decimal_nat(n: nat) -> Seq<char>
    decreases n,
{
    if n < 10 {
        seq![spec_digit(n)]
    } else {
        spec_decimal_nat(n / 10) + seq![spec_digit(n % 10)]
    }
}

/// The decimal rendering of an integer: a leading minus sign on a
/// negative one.
pub open spec fn spec_decimal(n: int) -> Seq<char> {
    if n < 0 {
        seq!['-'] + spec_decimal_nat((-n) as nat)
    } else {
        spec_decimal_nat(n as nat)
    }
}

/// One decimal digit as text.
fn digit_str(d: u64) -> (s: &'static str)
    requires
        d < 10,
    ensures
        s@ == seq![spec_digit(d as nat)],
{
    proof {
        reveal_strlit("0");
        reveal_strlit("1");
        reveal_strlit("2");
        reveal_strlit("3");
        reveal_strlit("4");
        reveal_strlit("5");
        reveal_strlit("6");
        reveal_strlit("7");
        reveal_strlit("8");
        reveal_strlit("9");
    }
    let r = if d == 0 {
        "0"
    } else if d == 1 {
        "1"
    } else if d == 2 {
        "2"
    } else if d == 3 {
        "3"
    } else if d == 4 {
        "4"
    } else if d == 5 {
        "5"
    } else if d == 6 {
        "6"
    } else if d == 7 {
        "7"
    } else if d == 8 {
        "8"
    } else {
        "9"
    };
    proof {
        assert(r@ =~= seq![spec_digit(d as nat)]);
    }
    r
}

/// Renders a natural number in decimal.
fn decimal_nat_string(n: u64) -> (s: String)
    ensures
        s@ == spec_decimal_nat(n as nat),
    decreases n,
{
    if n < 10 {
        digit_str(n).to_owned()
    } else {
        let mut s = decimal_nat_string(n / 10);
        s.append(digit_str(n % 10));
        s
    }
}

/// Renders an integer in decimal, with a leading minus sign when it is
/// negative.
pub fn decimal_string(n: i32) -> (s: String)
    ensures
        s@ == spec_decimal(n as int),
{
    if n < 0 {
        let magnitude: u64 = (-(n as i64)) as u64;
        proof {
            reveal_strlit("-");
            assert("-"@ =~= seq!['-']);
        }
        let mut s = "-".to_owned();
        let rest = decimal_nat_string(magnitude);
        s.append(rest.as_str());
        s
    } else {
        decimal_nat_string(n as u64)
    }
}

/// Status code for a successful native operation.
pub const STATUS_OK: i32 = 0;

/// Status code for a native operation that has not completed yet.
pub const STATUS_PENDING: i32 = 1;

/// Status code reported when an operation needs a connected handle and the
/// handle is not connected.
pub const ERR_NOT_CONNECTED: i32 = -1;

/// Status code reported when an offset lies outside the handle's storage.
pub const ERR_OUT_OF_BOUNDS: i32 = -2;

/// Status code reported when a request reaches a handle whose lifecycle has
/// been closed by explicit removal.
pub const ERR_CLOSED: i32 = -3;

/// A native status code, carried through this layer without interpretation.
#[derive(Clone, Copy, Debug, PartialEq, Eq, Structural)]
pub struct Status {
    pub code: i32,
}

impl Status {
    /// The raw code this status was built from.
    pub open spec fn spec_code(self) -> i32 {
        self.code
    }

    /// Success: the raw code is zero.
    pub open spec fn spec_is_ok(self) -> bool {
        self.spec_code() == 0
    }

    /// Still pending: the raw code is positive.
    pub open spec fn spec_is_pending(self) -> bool {
        self.spec_code() > 0
    }

    /// Failure: the raw code is negative.
    pub open spec fn spec_is_err(self) -> bool {
        self.spec_code() < 0
    }

    /// Wraps a raw native code without interpreting it.
    pub fn from_code(code: i32) -> (s: Status)
        ensures
            s.spec_code() == code,
    {
        Status { code }
    }

    /// The success status.
    pub fn ok() -> (s: Status)
        ensures
            s.spec_code() == STATUS_OK,
            s.spec_is_ok(),
    {
        Status { code: STATUS_OK }
    }

    /// The pending status.
    pub fn pending() -> (s: Status)
        ensures
            s.spec_code() == STATUS_PENDING,
            s.spec_is_pending(),
    {
        Status { code: STATUS_PENDING }
    }

    /// The raw code, for callers that want to inspect it themselves.
    pub fn code(&self) -> (c: i32)
        ensures
            c == self.spec_code(),
    {
        self.code
    }

    /// True exactly when the code is zero.
    pub fn is_ok(&self) -> (r: bool)
        ensures
            r == self.spec_is_ok(),
    {
        self.code == 0
    }

    /// True exactly when the code is positive.
    pub fn is_pending(&self) -> (r: bool)
        ensures
            r == self.spec_is_pending(),
    {
        self.code > 0
    }

    /// True exactly when the code is negative.
    pub fn is_err(&self) -> (r: bool)
        ensures
            r == self.spec_is_err(),
    {
        self.code < 0
    }
}

} // verus!
