//! The cooldown that the forum asks for when it answers 429, and the lock
//! that holds other requests back meanwhile.

use vstd::prelude::*;
use crate::text::to_chars;

verus! {

/// The status that asks for a cooldown.
pub const TOO_MANY_REQUESTS: u16 = 429;

/// Marks a request that leaves the throttle and the cooldown aside.
#[derive(Debug, Clone, Copy, PartialEq, Eq, Structural)]
pub struct BypassThrottle(pub bool);

/// Fails a request that takes longer than its time.
#[derive(Debug, Clone, Copy, PartialEq, Eq, Structural)]
pub struct TimeoutMiddleware(pub u64);

impl TimeoutMiddleware {
    /// A timeout of `timeout_secs` seconds.
    pub fn new(timeout_secs: u64) -> (t: TimeoutMiddleware)
        ensures
            t.0 == timeout_secs,
    {
        TimeoutMiddleware(timeout_secs)
    }
}

/// Tells whether `c` is a decimal digit.
pub open spec fn is_digit(c: char) -> bool {
    '0' <= c <= '9'
}

/// The number that the digits of `s` write.
pub open spec fn digits_value(s: Seq<char>) -> nat
    decreases s.len(),
{
    if s.len() == 0 {
        0
    } else {
        digits_value(s.drop_last()) * 10 + ((s.last() as u32) - ('0' as u32)) as nat
    }
}

/// Tells whether `s` holds decimal digits only.
pub open spec fn all_digits(s: Seq<char>) -> bool {
    forall|i: int| 0 <= i < s.len() ==> is_digit(#[trigger] s[i])
}

/// The number that `digits` write, where they are digits, at least one, and
/// the number fits 64 bits.
pub open spec fn spec_parse_digits(digits: Seq<char>) -> Option<u64> {
    if digits.len() > 0 && all_digits(digits) && digits_value(digits) <= u64::MAX {
        Some(digits_value(digits) as u64)
    } else {
        None
    }
}

/// The seconds that a `Retry-After` value asks for: a decimal number that
/// fits 64 bits, with or without a `+` in front, and nothing else.
pub open spec fn spec_parse_retry_after(value: Seq<char>) -> Option<u64> {
    if value.len() > 0 && value[0] == '+' {
        spec_parse_digits(value.skip(1))
    } else {
        spec_parse_digits(value)
    }
}

/// A number does not get smaller when digits are written behind it.
pub proof fn lemma_digits_grow(s: Seq<char>, n: int)
    requires
        0 <= n <= s.len(),
        all_digits(s),
    ensures
        digits_value(s.take(n)) <= digits_value(s),
    decreases s.len() - n,
{
    if n < s.len() {
        lemma_digits_grow(s, n + 1);
        assert(s.take(n + 1).drop_last() == s.take(n));
    } else {
        assert(s.take(n) == s);
    }
}

/// Reads a decimal number that fits 64 bits.
pub fn parse_digits(value: &str) -> (r: Option<u64>)
    ensures
        r == spec_parse_digits(value@),
{
    let v = to_chars(value);
    assert(v@.skip(0) == v@);
    parse_digits_from(&v, 0)
}

fn parse_digits_from(v: &Vec<char>, start: usize) -> (r: Option<u64>)
    requires
        start <= v.len(),
    ensures
        r == spec_parse_digits(v@.skip(start as int)),
{
    let ghost digits = v@.skip(start as int);
    if v.len() == start {
        return None;
    }
    let mut acc: u64 = 0;
    let mut i: usize = start;
    assert(digits.take(0) =~= Seq::<char>::empty());
    while i < v.len()
        invariant
            start <= i <= v.len(),
            start < v.len(),
            digits == v@.skip(start as int),
            forall|j: int| 0 <= j < i - start ==> is_digit(#[trigger] digits[j]),
            acc == digits_value(digits.take(i - start)),
        decreases v.len() - i,
    {
        let c = v[i];
        assert(digits[i - start] == c);
        if !('0' <= c && c <= '9') {
            assert(!all_digits(digits));
            return None;
        }
        let d: u64 = (c as u32 - '0' as u32) as u64;
        proof {
            assert(digits.take(i - start + 1).drop_last() == digits.take(i - start));
            assert(digits.take(i - start + 1).last() == c);
        }
        if acc > (u64::MAX - d) / 10 {
            proof {
                assert(digits_value(digits.take(i - start + 1)) > u64::MAX);
                if all_digits(digits) {
                    lemma_digits_grow(digits, i - start + 1);
                }
            }
            return None;
        }
        acc = acc * 10 + d;
        i += 1;
    }
    assert(digits.take(digits.len() as int) == digits);
    assert(all_digits(digits));
    Some(acc)
}

/// Reads the seconds of a `Retry-After` value.
pub fn parse_retry_after(value: &str) -> (r: Option<u64>)
    ensures
        r == spec_parse_retry_after(value@),
{
    let v = to_chars(value);
    let start: usize = if v.len() > 0 && v[0] == '+' {
        1
    } else {
        0
    };
    assert(start == 0 ==> v@.skip(0) == v@);
    parse_digits_from(&v, start)
}

/// What follows an answer of the forum.
#[derive(Debug, Clone, Copy, PartialEq, Eq, Structural)]
pub enum ResponseAction {
    /// The answer goes to the caller.
    Return,
    /// The forum asks for a cooldown of `retry_after` seconds: take the
    /// lock for yourself, wait as `stall_for` says, then send the same
    /// request once more.
    Stall { retry_after: u64 },
}

/// An answer with status 429 whose `Retry-After` holds a number starts a
/// cooldown; every other answer goes to the caller.
pub open spec fn spec_on_response(status: u16, retry_after: Option<Seq<char>>) -> ResponseAction {
    if status == TOO_MANY_REQUESTS && retry_after is Some && spec_parse_retry_after(
        retry_after->0,
    ) is Some {
        ResponseAction::Stall { retry_after: spec_parse_retry_after(retry_after->0)->0 }
    } else {
        ResponseAction::Return
    }
}

/// How long a cooldown still lasts once the lock is taken, in seconds: one
/// more than what is left of the time that the forum asked for, as far as
/// 64 bits hold it; nothing where that time has passed.
pub open spec fn spec_stall_for(retry_after: u64, elapsed_secs: u64) -> Option<u64> {
    if retry_after <= elapsed_secs {
        None
    } else if retry_after - elapsed_secs == u64::MAX {
        Some(u64::MAX)
    } else {
        Some((retry_after - elapsed_secs + 1) as u64)
    }
}

/// Retries a request that the forum has rate-limited, after the cooldown
/// that it asked for, and holds every other request back meanwhile.
#[derive(Debug, Clone, Copy, PartialEq, Eq, Structural)]
pub struct RetryMiddleware {
    /// Requests that have passed the lock and not left yet.
    passing: usize,
    /// Cooldowns that wait for the lock.
    waiting: usize,
    /// Whether a cooldown holds the lock.
    stalled: bool,
}

impl RetryMiddleware {
    /// Requests that hold the lock open.
    pub closed spec fn passing(&self) -> nat {
        self.passing as nat
    }

    /// Cooldowns that wait for the lock.
    pub closed spec fn waiting(&self) -> nat {
        self.waiting as nat
    }

    /// Whether a cooldown holds the lock.
    pub closed spec fn stalled(&self) -> bool {
        self.stalled
    }

    /// Nothing passes the lock during a cooldown.
    pub closed spec fn wf(&self) -> bool {
        self.stalled ==> self.passing == 0
    }

    /// A lock that is open, with nothing passing.
    pub fn new() -> (m: RetryMiddleware)
        ensures
            m.wf(),
            m.passing() == 0,
            m.waiting() == 0,
            !m.stalled(),
    {
        RetryMiddleware { passing: 0, waiting: 0, stalled: false }
    }

    /// Decides what follows an answer with `status` and, where it has one,
    /// the `Retry-After` header `retry_after`.
    pub fn on_response(status: u16, retry_after: Option<&str>) -> (action: ResponseAction)
        ensures
            action == spec_on_response(
                status,
                match retry_after {
                    Some(value) => Some(value@),
                    None => None,
                },
            ),
    {
        if status != TOO_MANY_REQUESTS {
            return ResponseAction::Return;
        }
        match retry_after {
            Some(value) => match parse_retry_after(value) {
                Some(retry_after) => ResponseAction::Stall { retry_after },
                None => ResponseAction::Return,
            },
            None => ResponseAction::Return,
        }
    }

    /// How long to wait once the lock is taken, `elapsed_secs` seconds after
    /// the forum asked for `retry_after`; the progress callback is told the
    /// same number. `None` where the time has passed already.
    pub fn stall_for(retry_after: u64, elapsed_secs: u64) -> (wait: Option<u64>)
        ensures
            wait == spec_stall_for(retry_after, elapsed_secs),
    {
        if retry_after <= elapsed_secs {
            None
        } else if retry_after - elapsed_secs == u64::MAX {
            Some(u64::MAX)
        } else {
            Some(retry_after - elapsed_secs + 1)
        }
    }

    /// Lets a request pass the lock, unless a cooldown holds it or waits
    /// for it; a request that leaves the throttle aside does not stop at the
    /// lock. No more requests pass at once than the counter holds.
    pub fn enter(&mut self, bypass: BypassThrottle) -> (passed: bool)
        requires
            old(self).wf(),
        ensures
            final(self).wf(),
            passed == (bypass.0 || (!old(self).stalled() && old(self).waiting() == 0
                && old(self).passing() < usize::MAX)),
            final(self).stalled() == old(self).stalled(),
            final(self).waiting() == old(self).waiting(),
            final(self).passing() == old(self).passing() + if !bypass.0 && passed {
                1nat
            } else {
                0nat
            },
    {
        if bypass.0 {
            true
        } else if self.stalled || self.waiting > 0 || self.passing == usize::MAX {
            false
        } else {
            self.passing = self.passing + 1;
            true
        }
    }

    /// Records that a request that had passed the lock has left it.
    pub fn leave(&mut self)
        requires
            old(self).wf(),
        ensures
            final(self).wf(),
            final(self).passing() == if old(self).passing() > 0 {
                old(self).passing() - 1
            } else {
                0
            },
            final(self).stalled() == old(self).stalled(),
            final(self).waiting() == old(self).waiting(),
    {
        if self.passing > 0 {
            self.passing = self.passing - 1;
        }
    }

    /// Announces a cooldown: from now on no request passes the lock until
    /// the cooldown has had it. `false` where no more cooldowns can wait
    /// than the counter holds.
    pub fn announce_stall(&mut self) -> (announced: bool)
        requires
            old(self).wf(),
        ensures
            final(self).wf(),
            announced == (old(self).waiting() < usize::MAX),
            final(self).waiting() == old(self).waiting() + if announced {
                1nat
            } else {
                0nat
            },
            final(self).passing() == old(self).passing(),
            final(self).stalled() == old(self).stalled(),
    {
        if self.waiting < usize::MAX {
            self.waiting = self.waiting + 1;
            true
        } else {
            false
        }
    }

    /// Takes the lock for a cooldown that was announced, once nothing is
    /// passing and no other cooldown holds it.
    pub fn begin_stall(&mut self) -> (taken: bool)
        requires
            old(self).wf(),
        ensures
            final(self).wf(),
            taken == (old(self).passing() == 0 && !old(self).stalled() && old(self).waiting()
                > 0),
            final(self).stalled() == (old(self).stalled() || taken),
            final(self).waiting() == old(self).waiting() - if taken {
                1int
            } else {
                0int
            },
            final(self).passing() == old(self).passing(),
    {
        if self.passing == 0 && !self.stalled && self.waiting > 0 {
            self.stalled = true;
            self.waiting = self.waiting - 1;
            true
        } else {
            false
        }
    }

    /// Opens the lock after a cooldown.
    pub fn end_stall(&mut self)
        requires
            old(self).wf(),
        ensures
            final(self).wf(),
            !final(self).stalled(),
            final(self).passing() == old(self).passing(),
            final(self).waiting() == old(self).waiting(),
    {
        self.stalled = false;
    }
}

/// A cooldown lasts as long as the forum asked: the time that went by
/// before the lock was taken and the wait after it make at least
/// `retry_after` seconds; and where no wait follows, that time has passed.
pub proof fn lemma_cooldown_covers_retry_after(retry_after: u64, elapsed_secs: u64)
    ensures
        match spec_stall_for(retry_after, elapsed_secs) {
            Some(wait) => elapsed_secs + wait >= retry_after && wait > 0,
            None => elapsed_secs >= retry_after,
        },
{
}

} // verus!
