//! Reading a process identifier out of a process-listing entry name.
use vstd::prelude::*;

verus! {

/// The identifier of the root (init) process, which a sweep never signals.
pub const INIT_PID: i32 = 1;

/// One past the largest identifier that an `i32` holds.
const PID_LIMIT: u64 = 0x8000_0000;

pub open spec fn is_digit(b: u8) -> bool {
    48 <= b <= 57
}

pub open spec fn all_digits(s: Seq<u8>) -> bool {
    forall|i: int| 0 <= i < s.len() ==> is_digit(#[trigger] s[i])
}

/// The decimal value of a string of digits, most significant first.
pub open spec fn digits_value(s: Seq<u8>) -> nat
    decreases s.len(),
{
    if s.len() == 0 {
        0
    } else {
        digits_value(s.drop_last()) * 10 + (s.last() - 48) as nat
    }
}

/// The process identifier that a listing entry names: a nonempty run of
/// decimal digits whose value is a positive `i32`. Any other name (`self`,
/// `meminfo`, a signed or out-of-range number) names no process.
pub open spec fn pid_of(s: Seq<u8>) -> Option<i32> {
    if s.len() > 0 && all_digits(s) && 0 < digits_value(s) <= i32::MAX {
        Some(digits_value(s) as i32)
    } else {
        None
    }
}

spec fn capped(v: nat) -> nat {
    if v < PID_LIMIT {
        v
    } else {
        PID_LIMIT as nat
    }
}

/// Parses a listing entry name into the process identifier it names.
pub fn parse_pid(name: &[u8]) -> (r: Option<i32>)
    ensures
        r == pid_of(name@),
{
    let n = name.len();
    let mut i: usize = 0;
    let mut value: u64 = 0;
    while i < n
        invariant
            n == name@.len(),
            i <= n,
            all_digits(name@.subrange(0, i as int)),
            value == capped(digits_value(name@.subrange(0, i as int))),
        decreases n - i,
    {
        let b = name[i];
        if b < 48 || b > 57 {
            assert(!is_digit(name@[i as int]));
            assert(!all_digits(name@));
            return None;
        }
        let d = (b - 48) as u64;
        let next = value * 10 + d;
        value = if next < PID_LIMIT { next } else { PID_LIMIT };
        proof {
            let pre = name@.subrange(0, i as int);
            let cur = name@.subrange(0, i as int + 1);
            assert(cur.drop_last() =~= pre);
            assert(cur.last() == b);
        }
        i = i + 1;
    }
    assert(name@.subrange(0, n as int) =~= name@);
    if n == 0 || value == 0 || value >= PID_LIMIT {
        None
    } else {
        Some(value as i32)
    }
}

} // verus!
