//! Runtime configuration and the timings derived from it
use vstd::arithmetic::mul::lemma_mul_inequality;
use vstd::arithmetic::power2::{lemma2_to64, lemma_pow2_strictly_increases, pow2};
use vstd::prelude::*;

use crate::retry::{Attempts, Strategy};
use crate::time::Millis;

verus! {

/// Bytes / Second
#[derive(Debug, Clone, Copy, PartialEq, Eq, PartialOrd, Ord, Hash, Structural)]
pub struct BytesPerSecond(pub u16);

/// Configuration options related to parsing & handling outbound CON requests
#[derive(Debug, Clone, Copy, PartialEq, Eq, PartialOrd, Ord, Hash, Structural)]
pub struct Con {
    /// Retry strategy for CON requests that have not yet been ACKed.
    ///
    /// Defaults to exponential backoff starting between 500 and 1000 milliseconds.
    pub unacked_retry_strategy: Strategy,
    /// Retry strategy for CON requests that have been ACKed; usually lazier
    /// than `unacked_retry_strategy`.
    ///
    /// Defaults to exponential backoff starting between 1000 and 2000 milliseconds.
    pub acked_retry_strategy: Strategy,
    /// Number of times we are allowed to send a CON request before erroring.
    ///
    /// Defaults to 4 attempts.
    pub max_attempts: Attempts,
}

/// Configuration options related to parsing & handling outbound NON requests
#[derive(Debug, Clone, Copy, PartialEq, Eq, PartialOrd, Ord, Hash, Structural)]
pub struct Non {
    /// Strategy to use when we sent a NON request and haven't yet received a
    /// response.
    ///
    /// Defaults to exponential backoff starting between 250 and 500 milliseconds.
    pub retry_strategy: Strategy,
    /// Number of times we are allowed to send a NON request before erroring.
    ///
    /// Defaults to 4 attempts.
    pub max_attempts: Attempts,
}

/// Configuration options related to parsing & handling messages
#[derive(Debug, Clone, Copy, PartialEq, Eq, PartialOrd, Ord, Hash, Structural)]
pub struct Msg {
    /// Seed used to generate message tokens, so that tokens are less
    /// guessable. Defaults to 0; best practice is to set something else.
    pub token_seed: u16,
    /// The transmission rate that we should do our best not to exceed when
    /// waiting for responses. Defaults to 1000 bytes per second.
    pub probing_rate: BytesPerSecond,
    /// See [`Con`]
    pub con: Con,
    /// See [`Non`]
    pub non: Non,
    /// The maximum amount of time we should delay our response to multicast
    /// requests. Defaults to 5000 milliseconds.
    pub multicast_response_leisure: Millis,
}

/// Runtime config
#[derive(Debug, Clone, Copy, PartialEq, Eq, PartialOrd, Ord, Hash, Structural)]
pub struct Config {
    /// See [`Msg`]
    pub msg: Msg,
    /// Maximum number of requests that can be in flight at a given moment.
    /// Defaults to 1 (no concurrency).
    pub max_concurrent_requests: u8,
}

impl Default for Con {
    fn default() -> (r: Con)
        ensures
            r == (Con {
                unacked_retry_strategy: Strategy::Exponential {
                    init_min: Millis(500),
                    init_max: Millis(1_000),
                },
                acked_retry_strategy: Strategy::Exponential {
                    init_min: Millis(1_000),
                    init_max: Millis(2_000),
                },
                max_attempts: Attempts(4),
            }),
    {
        Con {
            unacked_retry_strategy: Strategy::Exponential {
                init_min: Millis(500),
                init_max: Millis(1_000),
            },
            acked_retry_strategy: Strategy::Exponential {
                init_min: Millis(1_000),
                init_max: Millis(2_000),
            },
            max_attempts: Attempts(4),
        }
    }
}

impl Default for Non {
    fn default() -> (r: Non)
        ensures
            r == (Non {
                retry_strategy: Strategy::Exponential {
                    init_min: Millis(250),
                    init_max: Millis(500),
                },
                max_attempts: Attempts(4),
            }),
    {
        Non {
            retry_strategy: Strategy::Exponential { init_min: Millis(250), init_max: Millis(500) },
            max_attempts: Attempts(4),
        }
    }
}

impl Default for Msg {
    fn default() -> (r: Msg)
        ensures
            r.token_seed == 0,
            r.probing_rate == BytesPerSecond(1000),
            r.con == (Con {
                unacked_retry_strategy: Strategy::Exponential {
                    init_min: Millis(500),
                    init_max: Millis(1_000),
                },
                acked_retry_strategy: Strategy::Exponential {
                    init_min: Millis(1_000),
                    init_max: Millis(2_000),
                },
                max_attempts: Attempts(4),
            }),
            r.non == (Non {
                retry_strategy: Strategy::Exponential {
                    init_min: Millis(250),
                    init_max: Millis(500),
                },
                max_attempts: Attempts(4),
            }),
            r.multicast_response_leisure == Millis(5000),
    {
        Msg {
            token_seed: 0,
            probing_rate: BytesPerSecond(1000),
            con: Con::default(),
            non: Non::default(),
            multicast_response_leisure: Millis(5000),
        }
    }
}

impl Default for Config {
    fn default() -> (r: Config)
        ensures
            r.msg.token_seed == 0,
            r.msg.probing_rate == BytesPerSecond(1000),
            r.msg.con == (Con {
                unacked_retry_strategy: Strategy::Exponential {
                    init_min: Millis(500),
                    init_max: Millis(1_000),
                },
                acked_retry_strategy: Strategy::Exponential {
                    init_min: Millis(1_000),
                    init_max: Millis(2_000),
                },
                max_attempts: Attempts(4),
            }),
            r.msg.non == (Non {
                retry_strategy: Strategy::Exponential {
                    init_min: Millis(250),
                    init_max: Millis(500),
                },
                max_attempts: Attempts(4),
            }),
            r.msg.multicast_response_leisure == Millis(5000),
            r.max_concurrent_requests == 1,
    {
        Config { msg: Msg::default(), max_concurrent_requests: 1 }
    }
}

/// The larger of two integers
pub open spec fn max_int(a: int, b: int) -> int {
    if a >= b {
        a
    } else {
        b
    }
}

fn max_u64(a: u64, b: u64) -> (r: u64)
    ensures
        r == max_int(a as int, b as int),
{
    if a >= b {
        a
    } else {
        b
    }
}

impl Config {
    /// The time from the first transmission of a message to its last
    /// retransmission, over all of the retry strategies, when each strategy
    /// makes `con_attempts` (CON) or `non_attempts` (NON) attempts
    pub open spec fn spec_longest_wait(self, con_attempts: u16, non_attempts: u16) -> int {
        max_int(
            max_int(
                self.msg.con.acked_retry_strategy.spec_max_time(con_attempts),
                self.msg.con.unacked_retry_strategy.spec_max_time(con_attempts),
            ),
            self.msg.non.retry_strategy.spec_max_time(non_attempts),
        )
    }

    /// The strategies' maximum times can be computed for these attempts
    pub open spec fn waits_fit(self, con_attempts: u16, non_attempts: u16) -> bool {
        &&& self.msg.con.acked_retry_strategy.max_time_fits(con_attempts)
        &&& self.msg.con.unacked_retry_strategy.max_time_fits(con_attempts)
        &&& self.msg.non.retry_strategy.max_time_fits(non_attempts)
    }

    /// [`Config::max_transmit_span_millis`] can compute its result
    pub open spec fn span_fits(self) -> bool {
        &&& self.msg.con.max_attempts.0 >= 1
        &&& self.msg.non.max_attempts.0 >= 1
        &&& self.waits_fit(
            (self.msg.con.max_attempts.0 - 1) as u16,
            (self.msg.non.max_attempts.0 - 1) as u16,
        )
    }

    /// Maximum time from the first transmission of a message to its last
    /// retransmission
    pub open spec fn spec_max_transmit_span(self) -> int {
        self.spec_longest_wait(
            (self.msg.con.max_attempts.0 - 1) as u16,
            (self.msg.non.max_attempts.0 - 1) as u16,
        )
    }

    /// Maximum time from the first transmission of a message until the sender
    /// gives up
    pub open spec fn spec_max_transmit_wait(self) -> int {
        self.spec_longest_wait(self.msg.con.max_attempts.0, self.msg.non.max_attempts.0)
    }

    /// Maximum time a message exchange may last
    pub open spec fn spec_exchange_lifetime(self) -> int {
        self.spec_max_transmit_span() + 2 * 100_000 + 200
    }

    fn longest_wait(&self, con_attempts: Attempts, non_attempts: Attempts) -> (r: u64)
        requires
            self.waits_fit(con_attempts.0, non_attempts.0),
        ensures
            r == self.spec_longest_wait(con_attempts.0, non_attempts.0),
    {
        let acked_con = self.msg.con.acked_retry_strategy.max_time(con_attempts).0;
        let unacked_con = self.msg.con.unacked_retry_strategy.max_time(con_attempts).0;
        let non = self.msg.non.retry_strategy.max_time(non_attempts).0;
        max_u64(max_u64(acked_con, unacked_con), non)
    }

    /// Maximum time from the first transmission of a message to its last
    /// retransmission, in milliseconds
    pub fn max_transmit_span_millis(&self) -> (r: u64)
        requires
            self.span_fits(),
        ensures
            r == self.spec_max_transmit_span(),
    {
        self.longest_wait(self.msg.con.max_attempts - Attempts(1), self.msg.non.max_attempts
            - Attempts(1))
    }

    /// Maximum time from the first transmission of a message until the sender
    /// gives up, in milliseconds
    pub fn max_transmit_wait_millis(&self) -> (r: u64)
        requires
            self.waits_fit(self.msg.con.max_attempts.0, self.msg.non.max_attempts.0),
        ensures
            r == self.spec_max_transmit_wait(),
    {
        self.longest_wait(self.msg.con.max_attempts, self.msg.non.max_attempts)
    }

    /// Maximum time a datagram is expected to take from start to finish, in
    /// milliseconds
    pub fn max_latency_millis(&self) -> (r: u64)
        ensures
            r == 100_000,
    {
        100_000
    }

    /// Time a node takes to turn around a confirmable message into an
    /// acknowledgement, in milliseconds
    pub fn expected_processing_delay_millis(&self) -> (r: u64)
        ensures
            r == 200,
    {
        200
    }

    /// Time from starting to send a confirmable message to the time when an
    /// acknowledgement is no longer expected, in milliseconds
    pub fn exchange_lifetime_millis(&self) -> (r: u64)
        requires
            self.span_fits(),
            self.spec_exchange_lifetime() <= u64::MAX,
        ensures
            r == self.spec_exchange_lifetime(),
    {
        self.max_transmit_span_millis() + (2 * self.max_latency_millis())
            + self.expected_processing_delay_millis()
    }
}

/// A strategy's maximum time grows with the number of attempts.
pub proof fn lemma_max_time_monotonic(s: Strategy, fewer: u16, more: u16)
    requires
        fewer <= more,
        s.max_time_fits(fewer),
        s.max_time_fits(more),
    ensures
        s.spec_max_time(fewer) <= s.spec_max_time(more),
{
    match s {
        Strategy::Delay { max, .. } => {
            lemma_mul_inequality(fewer as int, more as int, max.0 as int);
            assert(fewer * max.0 == max.0 * fewer) by (nonlinear_arith);
            assert(more * max.0 == max.0 * more) by (nonlinear_arith);
        },
        Strategy::Exponential { init_max, .. } => {
            let a = (fewer - 1) as nat;
            let b = (more - 1) as nat;
            if a < b {
                lemma_pow2_strictly_increases(a, b);
            }
            lemma_mul_inequality(pow2(a) as int, pow2(b) as int, init_max.0 as int);
            assert(pow2(a) * init_max.0 == init_max.0 * pow2(a)) by (nonlinear_arith);
            assert(pow2(b) * init_max.0 == init_max.0 * pow2(b)) by (nonlinear_arith);
        },
    }
}

/// The time until a sender gives up covers the span of its retransmissions,
/// and an exchange lives at least as long as that span.
pub proof fn lemma_wait_covers_span(c: Config)
    requires
        c.span_fits(),
        c.waits_fit(c.msg.con.max_attempts.0, c.msg.non.max_attempts.0),
    ensures
        c.spec_max_transmit_span() <= c.spec_max_transmit_wait(),
        c.spec_max_transmit_span() < c.spec_exchange_lifetime(),
{
    let ca = c.msg.con.max_attempts.0;
    let na = c.msg.non.max_attempts.0;
    lemma_max_time_monotonic(c.msg.con.acked_retry_strategy, (ca - 1) as u16, ca);
    lemma_max_time_monotonic(c.msg.con.unacked_retry_strategy, (ca - 1) as u16, ca);
    lemma_max_time_monotonic(c.msg.non.retry_strategy, (na - 1) as u16, na);
}

/// The default configuration's timings: a transmission spans 8 seconds, a
/// sender gives up after 16 seconds, and an exchange lasts 208.2 seconds.
pub proof fn lemma_default_config_timings(c: Config)
    requires
        c.msg.con == (Con {
            unacked_retry_strategy: Strategy::Exponential {
                init_min: Millis(500),
                init_max: Millis(1_000),
            },
            acked_retry_strategy: Strategy::Exponential {
                init_min: Millis(1_000),
                init_max: Millis(2_000),
            },
            max_attempts: Attempts(4),
        }),
        c.msg.non == (Non {
            retry_strategy: Strategy::Exponential { init_min: Millis(250), init_max: Millis(500) },
            max_attempts: Attempts(4),
        }),
    ensures
        c.span_fits(),
        c.waits_fit(c.msg.con.max_attempts.0, c.msg.non.max_attempts.0),
        c.spec_max_transmit_span() == 8000,
        c.spec_max_transmit_wait() == 16000,
        c.spec_exchange_lifetime() == 208200,
{
    lemma2_to64();
}

} // verus!
