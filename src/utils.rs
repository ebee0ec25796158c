//! Timestamps carried by cached values and decimal rendering of integers.

use vstd::prelude::*;

verus! {

/// Nanoseconds in one second.
pub const NANOS_PER_SEC: u32 = 1_000_000_000;

/// A point in time as seconds and nanoseconds since the Unix epoch.
///
/// Every cached value carries one of these as its creation time.
#[derive(Debug, Clone, Copy, PartialEq, Eq, Structural)]
pub struct SystemTimeWrapper {
    pub secs: u64,
    pub nanos: u32,
}

impl SystemTimeWrapper {
    /// The sub-second part stays below one second.
    pub open spec fn wf(&self) -> bool {
        self.nanos < NANOS_PER_SEC
    }

    /// The instant as a count of nanoseconds since the epoch.
    pub open spec fn as_nanos_spec(&self) -> int {
        self.secs * 1_000_000_000 + self.nanos
    }

    /// Builds a timestamp; a sub-second part of a whole second or more is
    /// carried into the seconds, as `Duration::new` does.
    pub fn new(secs: u64, nanos: u32) -> (r: Option<SystemTimeWrapper>)
        ensures
            r is Some <==> secs as int + nanos as int / 1_000_000_000 <= u64::MAX,
            r matches Some(t) ==> t.wf() && t.as_nanos_spec() == secs * 1_000_000_000 + nanos,
    {
        let carry: u64 = (nanos / NANOS_PER_SEC) as u64;
        if secs > u64::MAX - carry {
            None
        } else {
            Some(SystemTimeWrapper { secs: secs + carry, nanos: nanos % NANOS_PER_SEC })
        }
    }

    /// The time elapsed from `self` to `now` in nanoseconds, zero when `now`
    /// is not later than `self`.
    pub open spec fn elapsed_nanos_spec(&self, now: SystemTimeWrapper) -> int {
        if now.as_nanos_spec() > self.as_nanos_spec() {
            now.as_nanos_spec() - self.as_nanos_spec()
        } else {
            0
        }
    }

    /// Whether more than `timeout_secs` seconds separate `self` from `now`.
    pub open spec fn older_than_spec(&self, now: SystemTimeWrapper, timeout_secs: u64) -> bool {
        self.elapsed_nanos_spec(now) > timeout_secs * 1_000_000_000
    }

    /// Whether more than `timeout_secs` seconds separate `self` from `now`.
    /// A `now` before `self` counts as no time elapsed.
    pub fn older_than(&self, now: SystemTimeWrapper, timeout_secs: u64) -> (r: bool)
        ensures
            r == self.older_than_spec(now, timeout_secs),
    {
        let created: u128 = self.secs as u128 * 1_000_000_000 + self.nanos as u128;
        let current: u128 = now.secs as u128 * 1_000_000_000 + now.nanos as u128;
        let limit: u128 = timeout_secs as u128 * 1_000_000_000;
        current > created && current - created > limit
    }
}

/// Types whose values record the moment they were created.
pub trait MonitorTime {
    fn create_at(&self) -> SystemTimeWrapper;
}

/// The character for a decimal digit.
pub open spec fn digit_char(d: nat) -> char {
    if d == 0 { '0' }
    else if d == 1 { '1' }
    else if d == 2 { '2' }
    else if d == 3 { '3' }
    else if d == 4 { '4' }
    else if d == 5 { '5' }
    else if d == 6 { '6' }
    else if d == 7 { '7' }
    else if d == 8 { '8' }
    else { '9' }
}

/// The decimal representation of `n`, most significant digit first.
pub open spec fn decimal(n: nat) -> Seq<char>
    decreases n,
{
    if n < 10 {
        seq![digit_char(n)]
    } else {
        decimal(n / 10) + seq![digit_char(n % 10)]
    }
}

fn digit_str(d: u64) -> (r: &'static str)
    requires
        d < 10,
    ensures
        r@ == seq![digit_char(d as nat)],
{
    proof {
        reveal_strlit("0");
        reveal_strlit("1");
        reveal_strlit("2");
        reveal_strlit("3");
        reveal_strlit("4");
        reveal_strlit("5");
        reveal_strlit("6");
        reveal_strlit("7");
        reveal_strlit("8");
        reveal_strlit("9");
    }
    match d {
        0 => "0",
        1 => "1",
        2 => "2",
        3 => "3",
        4 => "4",
        5 => "5",
        6 => "6",
        7 => "7",
        8 => "8",
        _ => "9",
    }
}

/// Appends the decimal representation of `n` to `out`.
pub fn push_decimal(out: &mut String, n: u64)
    ensures
        final(out)@ == old(out)@ + decimal(n as nat),
    decreases n,
{
    if n >= 10 {
        push_decimal(out, n / 10);
    }
    out.append(digit_str(n % 10));
    proof {
        assert(old(out)@ + decimal((n / 10) as nat) + seq![digit_char((n % 10) as nat)]
            =~= old(out)@ + (decimal((n / 10) as nat) + seq![digit_char((n % 10) as nat)]));
    }
}

} // verus!
