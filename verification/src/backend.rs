//! The polling client's state machine.
//!
//! The client keeps the device's session alive by polling it continuously.
//! All decisions live here as verified transitions over plain values; the
//! datagram socket stays with the embedding program, which asks
//! [`ViewerBackend::poll_plan`] what to do, performs the transport steps it
//! names, and feeds the outcome back through [`ViewerBackend::note_init_sent`],
//! [`ViewerBackend::commit_response`] and [`receive_failure`].
//!
//! A full poll therefore runs, in order: the rate limiter either serves the
//! cached reading without any network traffic, or admits exactly one
//! request/response exchange; the binary variant's very first exchange is
//! preceded by a one-time init request; a receive failure triggers exactly
//! one best-effort reconnect and still surfaces the original failure; a
//! decode failure leaves the cached reading unchanged; a success commits
//! the reading, stamps the poll instant and counts the poll.

use vstd::prelude::*;

use crate::codec::{decode_response, spec_decode_response, WireVariant};
use crate::errors::{StateError, TransportError, ViewerBackendError};
use crate::rate::{poll_allowed, spec_poll_allowed};
use crate::values::AnalogValues;

verus! {

/// The minimum interval between network polls for the binary variant.
pub const BINARY_MIN_INTERVAL_MS: u64 = 1;

/// The minimum interval between network polls for the text variant.
pub const TEXT_MIN_INTERVAL_MS: u64 = 5;

/// What one call of `poll` is to do, as decided by the rate limiter and the
/// session state.
#[derive(Clone, Copy, Debug, PartialEq, Eq, Structural)]
pub enum PollPlan {
    /// The minimum interval has not elapsed: serve the cached reading and
    /// perform no network traffic.
    UseCached,
    /// Perform one request/response exchange; `send_init` asks for the
    /// one-time init request first (binary variant, first exchange only).
    Exchange { send_init: bool },
}

/// The polling client's state: configuration, session progress and the
/// cached latest reading.
pub struct ViewerBackend {
    /// Which wire format the device speaks.
    pub variant: WireVariant,
    /// The rate limiter's minimum interval between network polls.
    pub min_interval_ms: u64,
    /// The latest committed reading; the sentinel until the first success.
    pub analog_vals: AnalogValues,
    /// When the last successful poll committed, in session milliseconds.
    pub last_poll_ms: u64,
    /// How many polls have committed a reading.
    pub polled_amt: u32,
    /// When the client was constructed, in session milliseconds.
    pub started_ms: u64,
    /// Whether the one-time init request has been sent (binary variant).
    pub initialized: bool,
    /// Whether any poll has committed a reading yet.
    pub has_polled: bool,
}

/// The poll counter after one more commit: one more, saturating at the top
/// instead of wrapping.
pub open spec fn spec_next_count(n: u32) -> u32 {
    if n < u32::MAX {
        (n + 1) as u32
    } else {
        n
    }
}

impl ViewerBackend {
    /// What `read` returns in a given state.
    pub open spec fn spec_read(self) -> Result<AnalogValues, ViewerBackendError> {
        if self.has_polled {
            Ok(self.analog_vals)
        } else {
            Err(ViewerBackendError::State(StateError::NotYetPolled))
        }
    }

    /// A fresh client: sentinel cache, nothing committed, session not yet
    /// initialized, with the rate limiter anchored at `now_ms`.
    pub fn new(variant: WireVariant, min_interval_ms: u64, now_ms: u64) -> (b: ViewerBackend)
        ensures
            b == (ViewerBackend {
                variant,
                min_interval_ms,
                analog_vals: AnalogValues::spec_sentinel(),
                last_poll_ms: now_ms,
                polled_amt: 0,
                started_ms: now_ms,
                initialized: false,
                has_polled: false,
            }),
    {
        ViewerBackend {
            variant,
            min_interval_ms,
            analog_vals: AnalogValues::sentinel(),
            last_poll_ms: now_ms,
            polled_amt: 0,
            started_ms: now_ms,
            initialized: false,
            has_polled: false,
        }
    }

    /// The cached reading, served on a rate-limited poll.
    pub fn cached(&self) -> (r: AnalogValues)
        ensures
            r == self.analog_vals,
    {
        self.analog_vals
    }

    /// Reads the latest committed reading without polling; fails with
    /// `NotYetPolled` until the first poll has committed one.
    pub fn read(&self) -> (r: Result<&AnalogValues, ViewerBackendError>)
        ensures
            self.has_polled ==> (r matches Ok(v) && *v == self.analog_vals),
            !self.has_polled ==> r == Err::<&AnalogValues, ViewerBackendError>(
                ViewerBackendError::State(StateError::NotYetPolled),
            ),
    {
        if self.has_polled {
            Ok(&self.analog_vals)
        } else {
            Err(ViewerBackendError::State(StateError::NotYetPolled))
        }
    }

    /// Decides what one poll at `now_ms` is to do. Before the minimum
    /// interval has elapsed the plan is the cached reading and no network
    /// traffic; at or past it, the plan is exactly one exchange, preceded
    /// by the one-time init request only on the binary variant's first
    /// exchange.
    pub fn poll_plan(&self, now_ms: u64) -> (plan: PollPlan)
        ensures
            !spec_poll_allowed(now_ms, self.last_poll_ms, self.min_interval_ms) ==> plan
                == PollPlan::UseCached,
            spec_poll_allowed(now_ms, self.last_poll_ms, self.min_interval_ms) ==> plan
                == (PollPlan::Exchange {
                send_init: self.variant is Binary && !self.initialized,
            }),
    {
        if poll_allowed(now_ms, self.last_poll_ms, self.min_interval_ms) {
            PollPlan::Exchange {
                send_init: self.variant == WireVariant::Binary && !self.initialized,
            }
        } else {
            PollPlan::UseCached
        }
    }

    /// Records that the one-time init request was sent and accepted by the
    /// transport; the session is initialized from here on.
    pub fn note_init_sent(&mut self)
        ensures
            *final(self) == (ViewerBackend { initialized: true, ..*old(self) }),
    {
        self.initialized = true;
    }

    /// Decodes a response payload and, on success, commits it atomically to
    /// the client's state: the reading replaces the cache, the poll instant
    /// is stamped and the poll counter grows. A decode failure surfaces as
    /// a codec error and leaves the state — the cached reading included —
    /// exactly as it was.
    pub fn commit_response(&mut self, payload: &[u8], now_ms: u64) -> (r: Result<
        AnalogValues,
        ViewerBackendError,
    >)
        ensures
            match spec_decode_response(old(self).variant, payload@) {
                Ok(av) => r == Ok::<AnalogValues, ViewerBackendError>(av) && *final(self) == (
                ViewerBackend {
                    analog_vals: av,
                    last_poll_ms: now_ms,
                    polled_amt: spec_next_count(old(self).polled_amt),
                    has_polled: true,
                    ..*old(self)
                }),
                Err(e) => *final(self) == *old(self) && (r matches Err(
                    ViewerBackendError::Codec(ce),
                ) && ce@ == e),
            },
    {
        match decode_response(self.variant, payload) {
            Ok(av) => {
                self.analog_vals = av;
                self.last_poll_ms = now_ms;
                self.polled_amt = if self.polled_amt < u32::MAX {
                    self.polled_amt + 1
                } else {
                    self.polled_amt
                };
                self.has_polled = true;
                Ok(av)
            },
            Err(e) => Err(ViewerBackendError::Codec(e)),
        }
    }
}

/// The error a poll reports after its receive failed: the original receive
/// failure, whatever the one best-effort reconnect attempt returned. A
/// reconnect failure is the caller's to log; it never displaces the
/// original failure.
pub fn receive_failure(original: TransportError, reconnect_outcome: Result<(), TransportError>) -> (e:
    ViewerBackendError)
    ensures
        e == ViewerBackendError::Transport(original),
{
    match reconnect_outcome {
        Ok(_) => ViewerBackendError::Transport(original),
        Err(_) => ViewerBackendError::Transport(original),
    }
}

/// Law: once one poll has committed a reading, `read` succeeds and returns
/// the cached reading. No transition clears the success flag —
/// `note_init_sent` and `commit_response` both keep it once set — so `read`
/// succeeds in every later state as well.
pub proof fn lemma_read_succeeds_after_success(b: ViewerBackend)
    requires
        b.has_polled,
    ensures
        b.spec_read() == Ok::<AnalogValues, ViewerBackendError>(b.analog_vals),
{
}

} // verus!
