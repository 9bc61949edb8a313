//! The admission-control primitive: a cell-rate algorithm with burst
//! tolerance, stated over integer milliseconds.
//!
//! Instead of the classical theoretical arrival time, the persisted cursor is
//! the "time of burst" (tob): the instant at which the tier's entire burst
//! capacity is fully available again. Any cursor in the past is then
//! interchangeable with no cursor at all, whatever the configuration, so a
//! cleanup process can drop stale rows without knowing which tier wrote them.

use vstd::prelude::*;

verus! {

/// The mathematical value of an optional persisted cursor.
pub open spec fn opt_int(tob: Option<u64>) -> Option<int> {
    match tob {
        Some(t) => Some(t as int),
        None => None,
    }
}

/// One time-windowed quota: `quota` units per `period_ms`, with `burst`
/// extra units available in a tight cluster beyond the steady rate.
#[derive(Debug)]
pub struct GCRAConfig {
    /// Length of the window for which the quota is defined, in milliseconds.
    pub period_ms: u64,

    /// Number of units that may be granted in one full window.
    pub quota: u32,

    /// Extra units that may accumulate; `burst + 1` units are available at
    /// full replenishment.
    pub burst: u32,

    /// Steady-state spacing between unit admissions: `period_ms / quota`.
    pub emission_interval_ms: u64,

    /// Longest time a request may arrive early: `emission_interval_ms * burst`.
    pub delay_tolerance_ms: u64,
}

impl GCRAConfig {
    /// The configuration is internally consistent: a positive quota no finer
    /// than one unit per millisecond, and derived intervals that match.
    pub open spec fn wf(self) -> bool {
        &&& 1 <= self.quota
        &&& self.quota as int <= self.period_ms as int
        &&& self.burst < u32::MAX
        &&& self.emission_interval_ms as int == self.period_ms as int / self.quota as int
        &&& self.delay_tolerance_ms as int == self.emission_interval_ms as int * self.burst as int
    }

    /// Theoretical arrival time: the pessimistic instant from which this
    /// request is measured. No cursor, or a cursor at most `now` plus the
    /// delay tolerance, measures from `now` itself (fully replenished).
    pub open spec fn spec_tat(self, now: int, tob: Option<int>) -> int {
        match tob {
            Some(t) => vstd::math::max(t - self.delay_tolerance_ms, now),
            None => now,
        }
    }

    /// A request is admitted iff `now` has reached the theoretical arrival
    /// time less the delay tolerance. The requested amount plays no part in
    /// the verdict, only in how far an admission advances the cursor.
    pub open spec fn spec_admits(self, now: int, tob: Option<int>) -> bool {
        self.spec_tat(now, tob) - self.delay_tolerance_ms <= now
    }

    /// The cursor stored after admitting `amount` units: the time at which
    /// the entire burst is available again.
    pub open spec fn spec_next_tob(self, now: int, tob: Option<int>, amount: int) -> int {
        self.spec_tat(now, tob) + amount * self.emission_interval_ms + self.delay_tolerance_ms
    }

    /// Units available right now without blocking, as a diagnostic; `check`
    /// alone decides admission.
    pub open spec fn spec_remaining(self, now: int, tob: Option<int>) -> int {
        let over = self.spec_tat(now, tob) - now;
        if over > self.delay_tolerance_ms {
            0
        } else {
            vstd::math::min(
                (self.delay_tolerance_ms - over) / self.emission_interval_ms as int,
                self.burst as int,
            ) + 1
        }
    }

    /// Builds a tier. When `burst` is not given it defaults to `quota - 1`,
    /// so that a fresh tier admits exactly `quota` units at once.
    ///
    /// The preconditions are the machine limits of the millisecond model: the
    /// window must give each unit at least one millisecond, and an explicit
    /// burst must keep the delay tolerance within `u64`.
    pub fn new(period_ms: u64, quota: u32, burst: Option<u32>) -> (r: GCRAConfig)
        requires
            1 <= quota,
            quota as int <= period_ms as int,
            match burst {
                Some(b) => b < u32::MAX && (period_ms as int / quota as int) * b <= u64::MAX,
                None => true,
            },
        ensures
            r.wf(),
            r.period_ms == period_ms,
            r.quota == quota,
            r.burst == (match burst {
                Some(b) => b,
                None => (quota - 1) as u32,
            }),
    {
        let burst: u32 = match burst {
            Some(b) => b,
            None => quota - 1,
        };
        let emission_interval_ms = period_ms / (quota as u64);
        proof {
            lemma_emission_times_quota_bounded(period_ms as int, quota as int);
            vstd::arithmetic::mul::lemma_mul_is_commutative(
                emission_interval_ms as int,
                burst as int,
            );
            if burst < quota {
                vstd::arithmetic::mul::lemma_mul_inequality(
                    burst as int,
                    quota as int,
                    emission_interval_ms as int,
                );
                vstd::arithmetic::mul::lemma_mul_is_commutative(
                    emission_interval_ms as int,
                    quota as int,
                );
            }
        }
        let delay_tolerance_ms = emission_interval_ms * (burst as u64);
        GCRAConfig { period_ms, quota, burst, emission_interval_ms, delay_tolerance_ms }
    }

    /// Decides one request for `amount` units at instant `now` against the
    /// persisted cursor `tob`. Returns the new cursor to persist when the
    /// request is admitted, and `None` when it must be rejected, in which
    /// case no state is implied to change.
    ///
    /// Asking for more than `quota` units is a caller bug, not a rejection,
    /// and is ruled out by the precondition; the remaining precondition only
    /// keeps an admitted request's new cursor within `u64`, and does not
    /// depend on the stored cursor: a rejection is decided before any cursor
    /// arithmetic.
    pub fn check(&self, now: u64, tob: Option<u64>, amount: u32) -> (r: Option<u64>)
        requires
            self.wf(),
            1 <= amount <= self.quota,
            now + amount * self.emission_interval_ms + 2 * self.delay_tolerance_ms <= u64::MAX,
        ensures
            r is Some <==> self.spec_admits(now as int, opt_int(tob)),
            r is Some ==> r.unwrap() == self.spec_next_tob(
                now as int,
                opt_int(tob),
                amount as int,
            ),
    {
        proof {
            lemma_emission_times_quota_bounded(self.period_ms as int, self.quota as int);
            vstd::arithmetic::mul::lemma_mul_is_commutative(
                self.emission_interval_ms as int,
                amount as int,
            );
            vstd::arithmetic::mul::lemma_mul_inequality(
                amount as int,
                self.quota as int,
                self.emission_interval_ms as int,
            );
            vstd::arithmetic::mul::lemma_mul_is_commutative(
                self.emission_interval_ms as int,
                self.quota as int,
            );
        }
        let increment = self.emission_interval_ms * (amount as u64);

        let tat: u64 = match tob {
            Some(t) => {
                let floor = if t >= self.delay_tolerance_ms {
                    t - self.delay_tolerance_ms
                } else {
                    0
                };
                if floor > now {
                    floor
                } else {
                    now
                }
            },
            None => now,
        };
        assert(tat == self.spec_tat(now as int, opt_int(tob)));

        if tat - now <= self.delay_tolerance_ms {
            Some(tat + increment + self.delay_tolerance_ms)
        } else {
            None
        }
    }

    /// Approximates how many units are available at `now` without blocking:
    /// zero while the cursor is further than the delay tolerance ahead, and
    /// otherwise one plus the elapsed emission intervals, capped at `burst`.
    pub fn remaining(&self, now: u64, tob: Option<u64>) -> (r: u32)
        requires
            self.wf(),
        ensures
            r == self.spec_remaining(now as int, opt_int(tob)),
    {
        proof {
            lemma_div_at_least_one(self.period_ms as int, self.quota as int);
        }
        let tat: u64 = match tob {
            Some(t) => {
                let floor = if t >= self.delay_tolerance_ms {
                    t - self.delay_tolerance_ms
                } else {
                    0
                };
                if floor > now {
                    floor
                } else {
                    now
                }
            },
            None => now,
        };
        assert(tat == self.spec_tat(now as int, opt_int(tob)));

        let over = tat - now;
        if over > self.delay_tolerance_ms {
            0
        } else {
            let delta = self.delay_tolerance_ms - over;
            let raw = delta / self.emission_interval_ms;
            let capped = if raw >= self.burst as u64 {
                self.burst
            } else {
                raw as u32
            };
            capped + 1
        }
    }
}

/// The emission interval times the quota never exceeds the window:
/// `(p / q) * q <= p`.
proof fn lemma_emission_times_quota_bounded(p: int, q: int)
    requires
        1 <= q <= p,
    ensures
        (p / q) * q <= p,
        0 <= p / q,
{
    vstd::arithmetic::div_mod::lemma_fundamental_div_mod(p, q);
    vstd::arithmetic::div_mod::lemma_mod_bound(p, q);
    vstd::arithmetic::div_mod::lemma_div_pos_is_pos(p, q);
    vstd::arithmetic::mul::lemma_mul_is_commutative(p / q, q);
}

/// The cursor stored after `k` unit admissions in a row at instant `now`,
/// starting from no cursor.
pub open spec fn spec_tob_after_units(cfg: GCRAConfig, now: int, k: nat) -> Option<int> {
    if k == 0 {
        None
    } else {
        Some(now + k * cfg.emission_interval_ms + cfg.delay_tolerance_ms)
    }
}

/// Law: at one instant, a fresh tier admits a unit request exactly while
/// fewer than `burst + 1` units have been admitted; each admission advances
/// the cursor by one emission interval; and `remaining` counts down by one
/// per admitted unit until it reaches zero at exhaustion. With the default
/// burst of `quota - 1`, exactly `quota` consecutive unit requests pass and
/// the next one is refused.
pub proof fn lemma_fresh_exhaustion(cfg: GCRAConfig, now: int, k: nat)
    requires
        cfg.wf(),
        0 <= now,
        k <= cfg.burst + 1,
    ensures
        cfg.spec_admits(now, spec_tob_after_units(cfg, now, k)) <==> k <= cfg.burst,
        k <= cfg.burst ==> cfg.spec_next_tob(now, spec_tob_after_units(cfg, now, k), 1)
            == spec_tob_after_units(cfg, now, (k + 1) as nat).unwrap(),
        cfg.spec_remaining(now, spec_tob_after_units(cfg, now, k)) == if k <= cfg.burst {
            cfg.burst + 1 - k
        } else {
            0
        },
        cfg.burst == cfg.quota - 1 ==> (cfg.spec_admits(now, spec_tob_after_units(cfg, now, k))
            <==> k < cfg.quota),
{
    let e = cfg.emission_interval_ms as int;
    let b = cfg.burst as int;
    let dt = cfg.delay_tolerance_ms as int;
    lemma_div_at_least_one(cfg.period_ms as int, cfg.quota as int);
    vstd::arithmetic::mul::lemma_mul_is_commutative(e, b);
    assert(dt == b * e);
    if k == 0 {
        assert(cfg.spec_tat(now, spec_tob_after_units(cfg, now, k)) == now);
        vstd::arithmetic::div_mod::lemma_div_multiples_vanish(b, e);
        assert(dt / e == b);
        assert(cfg.spec_remaining(now, None) == b + 1);
    } else {
        let tob = now + k * e + dt;
        assert(spec_tob_after_units(cfg, now, k) == Some(tob));
        vstd::arithmetic::mul::lemma_mul_nonnegative(k as int, e);
        let tat = cfg.spec_tat(now, Some(tob));
        assert(tat == now + k * e);
        // Admission holds exactly when `k * e <= b * e`, that is `k <= b`.
        vstd::arithmetic::mul::lemma_mul_is_distributive_add_other_way(e, b, 1);
        vstd::arithmetic::mul::lemma_mul_basics(e);
        assert((b + 1) * e == b * e + e);
        if k <= b {
            vstd::arithmetic::mul::lemma_mul_inequality(k as int, b, e);
            assert(k * e <= b * e);
        } else {
            assert(k == b + 1);
            assert(k * e > b * e);
        }
        assert(cfg.spec_admits(now, Some(tob)) <==> k <= b);
        if k <= b {
            // One more unit moves the cursor exactly one emission interval.
            assert(cfg.spec_next_tob(now, Some(tob), 1) == now + k * e + 1 * e + dt);
            vstd::arithmetic::mul::lemma_mul_is_distributive_add_other_way(e, k as int, 1);
            assert((k + 1) * e == k * e + e);
            // Remaining counts the elapsed intervals: `b - k` of them.
            vstd::arithmetic::mul::lemma_mul_is_distributive_sub_other_way(e, b, k as int);
            assert(dt - (tat - now) == (b - k) * e);
            vstd::arithmetic::div_mod::lemma_div_multiples_vanish(b - k, e);
            vstd::arithmetic::mul::lemma_mul_is_commutative(e, b - k);
            assert(((b - k) * e) / e == b - k);
            assert(cfg.spec_remaining(now, Some(tob)) == b + 1 - k);
        } else {
            assert(tat - now > dt);
            assert(cfg.spec_remaining(now, Some(tob)) == 0);
        }
    }
}

/// Law: with no cursor stored, the whole burst capacity is available at
/// once: `remaining` is `burst + 1`, which is `quota` under the default
/// burst of `quota - 1`.
pub proof fn lemma_remaining_fresh(cfg: GCRAConfig, now: int)
    requires
        cfg.wf(),
        0 <= now,
    ensures
        cfg.spec_remaining(now, None) == cfg.burst + 1,
        cfg.burst == cfg.quota - 1 ==> cfg.spec_remaining(now, None) == cfg.quota,
{
    lemma_fresh_exhaustion(cfg, now, 0);
}

/// Law: admission is never a no-op. Every admitted request strictly
/// advances the cursor past its previous value (past `now` when none was
/// stored), so repeating the same call at the same instant consumes quota
/// monotonically rather than idempotently.
pub proof fn lemma_admission_advances_cursor(
    cfg: GCRAConfig,
    now: int,
    tob: Option<int>,
    amount: int,
)
    requires
        cfg.wf(),
        0 <= now,
        1 <= amount,
    ensures
        cfg.spec_next_tob(now, tob, amount) > (match tob {
            Some(t) => t,
            None => now,
        }),
{
    let e = cfg.emission_interval_ms as int;
    lemma_div_at_least_one(cfg.period_ms as int, cfg.quota as int);
    vstd::arithmetic::mul::lemma_mul_inequality(1, amount, e);
    vstd::arithmetic::mul::lemma_mul_basics(e);
    assert(amount * e >= e);
}

/// Dividing a value by a divisor no larger than it yields at least one.
proof fn lemma_div_at_least_one(p: int, q: int)
    requires
        1 <= q <= p,
    ensures
        1 <= p / q,
{
    vstd::arithmetic::div_mod::lemma_div_is_ordered(q, p, q);
    vstd::arithmetic::div_mod::lemma_div_by_self(q);
}

} // verus!

