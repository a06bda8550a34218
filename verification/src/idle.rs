//! Time spans and the idle timer that stops a session left frozen.

use vstd::prelude::*;

use crate::text::chars_of;

verus! {

/// Nanoseconds in a second.
pub const NANOS_PER_SEC: u128 = 1_000_000_000;

/// The longest span there is: `u64::MAX` seconds and all but a nanosecond.
pub const MAX_NANOS: u128 = 18_446_744_073_709_551_615_999_999_999;

/// How long a session has to stay frozen before the idle stop, unless
/// overridden: thirty minutes.
pub const IDLE_TIMEOUT_SECS: u64 = 1800;

/// A span of time, to the nanosecond, as long as a `std::time::Duration` can be.
#[derive(Clone, Copy, PartialEq, Eq, Structural, Debug)]
pub struct Span {
    nanos: u128,
}

impl View for Span {
    type V = nat;

    closed spec fn view(&self) -> nat {
        self.nanos as nat
    }
}

/// `a - b`, or zero when `b` is larger.
pub open spec fn minus(a: nat, b: nat) -> nat {
    if a >= b {
        (a - b) as nat
    } else {
        0
    }
}

/// How much of `timeout` is left for a session frozen since `since`, at `now`.
pub open spec fn remaining(since: nat, now: nat, timeout: nat) -> nat {
    minus(timeout, minus(now, since))
}

impl Span {
    #[verifier::type_invariant]
    spec fn fits(self) -> bool {
        self.nanos <= MAX_NANOS
    }

    /// A span of whole seconds.
    pub fn from_secs(secs: u64) -> (s: Span)
        ensures
            s@ == secs * 1_000_000_000,
    {
        Span::from_secs_nanos(secs, 0)
    }

    /// A span of `secs` seconds and `nanos` nanoseconds.
    pub fn from_secs_nanos(secs: u64, nanos: u32) -> (s: Span)
        requires
            nanos < 1_000_000_000,
        ensures
            s@ == secs * 1_000_000_000 + nanos,
    {
        let whole = secs as u128;
        assert(whole * 1_000_000_000 <= 18_446_744_073_709_551_615 * 1_000_000_000) by (nonlinear_arith)
            requires
                whole <= 18_446_744_073_709_551_615u128,
        ;
        Span { nanos: whole * NANOS_PER_SEC + nanos as u128 }
    }

    /// The whole seconds of the span.
    pub fn secs(self) -> (s: u64)
        ensures
            s == self@ / 1_000_000_000,
    {
        proof {
            use_type_invariant(self);
        }
        (self.nanos / NANOS_PER_SEC) as u64
    }

    /// The nanoseconds past the whole seconds.
    pub fn subsec_nanos(self) -> (n: u32)
        ensures
            n == self@ % 1_000_000_000,
            n < 1_000_000_000,
    {
        (self.nanos % NANOS_PER_SEC) as u32
    }

    /// `self - other`, or nothing when `other` is longer.
    pub fn saturating_sub(self, other: Span) -> (s: Span)
        ensures
            s@ == minus(self@, other@),
    {
        proof {
            use_type_invariant(self);
        }
        if self.nanos >= other.nanos {
            Span { nanos: self.nanos - other.nanos }
        } else {
            Span { nanos: 0 }
        }
    }
}

/// How much longer a session frozen at `frozen_since` has before the idle stop
/// fires, or `None` if it isn't frozen. Saturates, so a session that went idle
/// while the machine was asleep is already due the moment it wakes, and a
/// clock that jumps backwards gives the whole timeout.
pub fn idle_left(frozen_since: Option<Span>, now: Span, timeout: Span) -> (left: Option<Span>)
    ensures
        match frozen_since {
            None => left is None,
            Some(since) => left matches Some(l) && l@ == remaining(since@, now@, timeout@),
        },
{
    match frozen_since {
        None => None,
        Some(since) => Some(timeout.saturating_sub(now.saturating_sub(since))),
    }
}

/// The idle countdown: never longer than the timeout, the whole timeout while
/// no time has passed (or the clock went back), counting down one for one
/// with the time frozen, and due exactly once the frozen time reaches the timeout.
pub proof fn lemma_idle_countdown(since: nat, now: nat, timeout: nat)
    ensures
        remaining(since, now, timeout) <= timeout,
        now <= since ==> remaining(since, now, timeout) == timeout,
        since <= now <= since + timeout ==> remaining(since, now, timeout) + (now - since)
            == timeout,
        remaining(since, now, timeout) == 0 <==> minus(now, since) >= timeout,
{
}

/// Whether `c` is an ASCII decimal digit.
pub open spec fn is_digit(c: char) -> bool {
    '0' <= c <= '9'
}

/// The value of a string of decimal digits.
pub open spec fn digits_value(s: Seq<char>) -> nat
    decreases s.len(),
{
    if s.len() == 0 {
        0
    } else {
        digits_value(s.drop_last()) * 10 + ((s.last() as u32) - ('0' as u32)) as nat
    }
}

/// Whether every character of `d` is a decimal digit.
pub open spec fn all_digits(d: Seq<char>) -> bool {
    forall|i: int| 0 <= i < d.len() ==> is_digit(#[trigger] d[i])
}

/// `s` without one leading `+`, if it has one.
pub open spec fn unsigned_part(s: Seq<char>) -> Seq<char> {
    if s.len() > 0 && s[0] == '+' {
        s.drop_first()
    } else {
        s
    }
}

/// What `u64`'s `FromStr` accepts: decimal digits, at least one, after an
/// optional `+`, whose value fits in a `u64`.
pub open spec fn parse_u64_spec(s: Seq<char>) -> Option<u64> {
    let d = unsigned_part(s);
    if d.len() > 0 && all_digits(d) && digits_value(d) <= u64::MAX {
        Some(digits_value(d) as u64)
    } else {
        None
    }
}

/// A longer string of digits is worth at least as much as its prefix.
proof fn lemma_digits_prefix(d: Seq<char>, k: int)
    requires
        0 <= k <= d.len(),
        all_digits(d),
    ensures
        digits_value(d.take(k)) <= digits_value(d),
    decreases d.len(),
{
    if k < d.len() {
        assert(d.drop_last().take(k) =~= d.take(k));
        assert(forall|i: int| 0 <= i < d.drop_last().len() ==> d.drop_last()[i] == d[i]);
        lemma_digits_prefix(d.drop_last(), k);
    } else {
        assert(d.take(k) =~= d);
    }
}

/// Parses a `u64` the way `str::parse::<u64>` does.
pub fn parse_u64(s: &str) -> (r: Option<u64>)
    ensures
        r == parse_u64_spec(s@),
{
    let c = chars_of(s);
    let n = c.len();
    let mut i: usize = 0;
    if n > 0 && c[0] == '+' {
        i = 1;
    }
    let start = i;
    let ghost d = c@.subrange(start as int, n as int);
    assert(d =~= unsigned_part(s@));
    if start == n {
        return None;
    }
    let mut acc: u64 = 0;
    assert(d.take(0) =~= Seq::<char>::empty());
    while i < n
        invariant
            start <= i <= n,
            n == c.len(),
            c@ == s@,
            d == c@.subrange(start as int, n as int),
            d == unsigned_part(s@),
            forall|j: int| 0 <= j < i - start ==> is_digit(#[trigger] d[j]),
            acc == digits_value(d.take(i - start)),
        decreases n - i,
    {
        let ch = c[i];
        if !('0' <= ch && ch <= '9') {
            assert(!is_digit(d[i - start]));
            return None;
        }
        let digit = (ch as u32 - '0' as u32) as u64;
        assert(d.take(i - start + 1).drop_last() =~= d.take(i - start));
        match acc.checked_mul(10) {
            None => {
                proof {
                    let ghost p = d.take(i - start + 1);
                    assert(digits_value(p) > u64::MAX);
                    if all_digits(d) {
                        lemma_digits_prefix(d, i - start + 1);
                    }
                }
                return None;
            },
            Some(m) => match m.checked_add(digit) {
                None => {
                    proof {
                        let ghost p = d.take(i - start + 1);
                        assert(digits_value(p) > u64::MAX);
                        if all_digits(d) {
                            lemma_digits_prefix(d, i - start + 1);
                        }
                    }
                    return None;
                },
                Some(v) => {
                    acc = v;
                },
            },
        }
        i = i + 1;
    }
    assert(d.take(n - start) =~= d);
    Some(acc)
}

/// The idle timeout: the override's whole seconds when it holds a number that
/// `u64` parses, thirty minutes otherwise.
pub fn idle_timeout(var: Option<&str>) -> (t: Span)
    ensures
        t@ == 1_000_000_000 * match var {
            Some(v) => match parse_u64_spec(v@) {
                Some(secs) => secs as nat,
                None => IDLE_TIMEOUT_SECS as nat,
            },
            None => IDLE_TIMEOUT_SECS as nat,
        },
{
    match var {
        Some(v) => match parse_u64(v) {
            Some(secs) => Span::from_secs(secs),
            None => Span::from_secs(IDLE_TIMEOUT_SECS),
        },
        None => Span::from_secs(IDLE_TIMEOUT_SECS),
    }
}

} // verus!
