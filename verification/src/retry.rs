use std::time::Instant;
use vstd::prelude::*;

use crate::clock::{elapsed_secs, instant_now};

verus! {

/// How many seconds must pass between two attempts.
pub const RETRY_INTERVAL_SECS: u64 = 2;

/// Whether another attempt is due: always before the first attempt, then once
/// `RETRY_INTERVAL_SECS` have passed since the last one.
pub fn is_retry_due(secs_since_last: Option<u64>) -> (due: bool)
    ensures
        due == match secs_since_last {
            Some(s) => s >= RETRY_INTERVAL_SECS,
            None => true,
        },
{
    match secs_since_last {
        Some(s) => s >= RETRY_INTERVAL_SECS,
        None => true,
    }
}

/// Paces the attempts of a handshake and counts them against a limit.
pub struct RetryHelper {
    current_retry: u16,
    max_retries: u16,
    last_retry: Option<Instant>,
}

impl RetryHelper {
    /// How many attempts were made.
    pub closed spec fn attempts(&self) -> u16 {
        self.current_retry
    }

    /// How many attempts are allowed.
    pub closed spec fn limit(&self) -> u16 {
        self.max_retries
    }

    /// Whether an attempt was made since creation or the last reset.
    pub closed spec fn attempted(&self) -> bool {
        self.last_retry is Some
    }

    /// Whether the attempts exceed the limit.
    pub open spec fn done_spec(&self) -> bool {
        self.attempts() > self.limit()
    }

    pub fn new(max_retries: u16) -> (res: Self)
        ensures
            res.attempts() == 0,
            res.limit() == max_retries,
            !res.attempted(),
    {
        RetryHelper { current_retry: 0, max_retries, last_retry: None }
    }

    /// Whether to attempt now; when so, the attempt is counted and its time kept.
    /// The first attempt is always due; later ones depend on the clock.
    pub fn should_retry(&mut self) -> (res: bool)
        requires
            old(self).attempts() < u16::MAX,
        ensures
            !old(self).attempted() ==> res,
            res ==> final(self).attempts() == old(self).attempts() + 1 && final(self).attempted(),
            !res ==> final(self).attempts() == old(self).attempts() && final(self).attempted()
                == old(self).attempted(),
            final(self).limit() == old(self).limit(),
    {
        let secs_since_last = match &self.last_retry {
            Some(x) => Some(elapsed_secs(x)),
            None => None,
        };
        let should_retry = is_retry_due(secs_since_last);
        if should_retry {
            self.current_retry = self.current_retry + 1;
            self.last_retry = Some(instant_now());
        }
        should_retry
    }

    /// Whether the attempts exceed the limit.
    pub fn done(&self) -> (res: bool)
        ensures
            res == (self.attempts() > self.limit()),
    {
        self.current_retry > self.max_retries
    }

    /// Starts counting again, as if no attempt had been made.
    pub fn reset(&mut self)
        ensures
            final(self).attempts() == 0,
            !final(self).attempted(),
            final(self).limit() == old(self).limit(),
    {
        self.current_retry = 0;
        self.last_retry = None;
    }
}

} // verus!
