//! The route table and its configuration: path templates, each with an
//! ordered list of tier declarations, checked at load time and turned into
//! well-formed tiers. The order of declaration is kept, so evaluation order
//! is deterministic.

use vstd::prelude::*;

use crate::context::RequestContext;
use crate::gcra::opt_int;
use crate::gcra::GCRAConfig;
use crate::store::rows_data;
use crate::store::spec_apply;
use crate::store::MemoryStore;
use crate::store::StoreRow;
use crate::template::extract_keys;
use crate::template::spec_keys_from;
use crate::template::spec_subst;
use crate::template::substitute;

verus! {

/// One window declaration: exactly one unit bound to a positive count.
#[derive(Debug)]
pub enum Slice {
    Seconds(u64),
    Minutes(u64),
    Hours(u64),
    Days(u64),
}

impl Slice {
    /// The declared count, whatever the unit.
    pub open spec fn count(self) -> u64 {
        match self {
            Slice::Seconds(n) => n,
            Slice::Minutes(n) => n,
            Slice::Hours(n) => n,
            Slice::Days(n) => n,
        }
    }

    /// Milliseconds per unit.
    pub open spec fn unit_ms(self) -> int {
        match self {
            Slice::Seconds(_) => 1000,
            Slice::Minutes(_) => 60000,
            Slice::Hours(_) => 3600000,
            Slice::Days(_) => 86400000,
        }
    }

    /// The declared window in milliseconds, when positive and within `u64`.
    pub open spec fn spec_window_ms(self) -> Option<u64> {
        if 1 <= self.count() && self.count() * self.unit_ms() <= u64::MAX {
            Some((self.count() * self.unit_ms()) as u64)
        } else {
            None
        }
    }

    /// Computes the window in milliseconds; `None` when the count is zero
    /// or the window does not fit in `u64`.
    pub fn window_ms(&self) -> (r: Option<u64>)
        ensures
            r == self.spec_window_ms(),
    {
        match self {
            Slice::Seconds(n) => {
                if *n >= 1 {
                    n.checked_mul(1000)
                } else {
                    None
                }
            },
            Slice::Minutes(n) => {
                if *n >= 1 {
                    n.checked_mul(60000)
                } else {
                    None
                }
            },
            Slice::Hours(n) => {
                if *n >= 1 {
                    n.checked_mul(3600000)
                } else {
                    None
                }
            },
            Slice::Days(n) => {
                if *n >= 1 {
                    n.checked_mul(86400000)
                } else {
                    None
                }
            },
        }
    }
}

/// Why a configuration was rejected at load time.
#[derive(Clone, Copy, Debug, PartialEq, Eq, Structural)]
pub enum ConfigError {
    /// A window count is zero.
    ZeroWindow,
    /// A window does not fit in `u64` milliseconds.
    WindowOutOfRange,
    /// A quota is zero.
    ZeroQuota,
    /// A quota grants more than one unit per millisecond of its window.
    QuotaFinerThanMillisecond,
    /// An explicit burst is zero.
    ZeroBurst,
    /// An explicit burst makes the delay tolerance overflow `u64`.
    BurstOutOfRange,
}

/// One tier declaration: a window, a quota, and an optional burst.
#[derive(Debug)]
pub struct RateLimitLine {
    pub slice: Slice,
    pub quota: u32,
    pub burst: Option<u32>,
}

impl RateLimitLine {
    /// The first load-time check this declaration fails, if any.
    pub open spec fn spec_check(self) -> Result<(), ConfigError> {
        if self.slice.count() < 1 {
            Err(ConfigError::ZeroWindow)
        } else if self.slice.spec_window_ms() is None {
            Err(ConfigError::WindowOutOfRange)
        } else if self.quota < 1 {
            Err(ConfigError::ZeroQuota)
        } else if self.slice.spec_window_ms().unwrap() < self.quota {
            Err(ConfigError::QuotaFinerThanMillisecond)
        } else if self.burst == Some(0u32) {
            Err(ConfigError::ZeroBurst)
        } else {
            match self.burst {
                Some(b) => if b < u32::MAX && (self.slice.spec_window_ms().unwrap() as int
                    / self.quota as int) * b <= u64::MAX {
                    Ok(())
                } else {
                    Err(ConfigError::BurstOutOfRange)
                },
                None => Ok(()),
            }
        }
    }

    /// The declaration passes every load-time check.
    pub open spec fn spec_valid(self) -> bool {
        self.spec_check() is Ok
    }

    /// The tier built from a valid declaration has these fields.
    pub open spec fn spec_matches_tier(self, t: GCRAConfig) -> bool {
        &&& t.wf()
        &&& t.period_ms == self.slice.spec_window_ms().unwrap()
        &&& t.quota == self.quota
        &&& t.burst == (match self.burst {
            Some(b) => b,
            None => (self.quota - 1) as u32,
        })
    }

    /// Checks the declaration and builds its tier, reporting the first
    /// failed check otherwise.
    pub fn to_gcra(&self) -> (r: Result<GCRAConfig, ConfigError>)
        ensures
            r is Ok <==> self.spec_valid(),
            r is Ok ==> self.spec_matches_tier(r.unwrap()),
            r is Err ==> Err::<(), ConfigError>(r.unwrap_err()) == self.spec_check(),
    {
        if self.count_of_slice() < 1 {
            return Err(ConfigError::ZeroWindow);
        }
        let window = match self.slice.window_ms() {
            Some(w) => w,
            None => {
                return Err(ConfigError::WindowOutOfRange);
            },
        };
        if self.quota < 1 {
            return Err(ConfigError::ZeroQuota);
        }
        if window < self.quota as u64 {
            return Err(ConfigError::QuotaFinerThanMillisecond);
        }
        match self.burst {
            Some(b) => {
                if b == 0 {
                    return Err(ConfigError::ZeroBurst);
                }
                if b == u32::MAX {
                    return Err(ConfigError::BurstOutOfRange);
                }
                let emission = window / (self.quota as u64);
                if emission.checked_mul(b as u64).is_none() {
                    return Err(ConfigError::BurstOutOfRange);
                }
                Ok(GCRAConfig::new(window, self.quota, Some(b)))
            },
            None => Ok(GCRAConfig::new(window, self.quota, None)),
        }
    }

    /// The declared window count, whatever the unit.
    fn count_of_slice(&self) -> (r: u64)
        ensures
            r == self.slice.count(),
    {
        match &self.slice {
            Slice::Seconds(n) => *n,
            Slice::Minutes(n) => *n,
            Slice::Hours(n) => *n,
            Slice::Days(n) => *n,
        }
    }
}

/// The declarative configuration: path templates in declaration order, each
/// with its ordered tier declarations.
#[derive(Debug)]
pub struct RateLimitConfig {
    pub limits: Vec<(String, Vec<RateLimitLine>)>,
}

/// The first failed check among a template's tier declarations, if any.
pub open spec fn first_line_error(lines: Seq<RateLimitLine>) -> Option<ConfigError>
    decreases lines.len(),
{
    if lines.len() == 0 {
        None
    } else if lines[0].spec_check() is Err {
        Some(lines[0].spec_check().unwrap_err())
    } else {
        first_line_error(lines.drop_first())
    }
}

/// The first failed check in the whole configuration, if any, scanning
/// templates in declaration order.
pub open spec fn first_config_error(limits: Seq<(String, Vec<RateLimitLine>)>) -> Option<
    ConfigError,
>
    decreases limits.len(),
{
    if limits.len() == 0 {
        None
    } else if first_line_error(limits[0].1@) is Some {
        first_line_error(limits[0].1@)
    } else {
        first_config_error(limits.drop_first())
    }
}

/// One route: a path template, the placeholder names it requires, and its
/// tiers in declaration order.
#[derive(Debug)]
pub struct Route {
    pub required_keys: Vec<String>,
    pub template: String,
    pub tiers: Vec<GCRAConfig>,
}

impl Route {
    /// The required keys are exactly the template's placeholders, and every
    /// tier is well formed.
    pub open spec fn wf(self) -> bool {
        &&& self.required_keys@.map_values(|k: String| k@) == spec_keys_from(self.template@, 0)
        &&& forall|j: int| 0 <= j < self.tiers@.len() ==> (#[trigger] self.tiers@[j]).wf()
    }

    /// The route applies to a context iff every required key is present;
    /// extra context keys are ignored.
    pub open spec fn spec_matches(self, ctx: Map<Seq<char>, Seq<char>>) -> bool {
        forall|j: int|
            0 <= j < self.required_keys@.len() ==> ctx.dom().contains(
                (#[trigger] self.required_keys@[j])@,
            )
    }

    /// A route built from a template and checked declarations.
    pub open spec fn spec_from_entry(self, template: Seq<char>, lines: Seq<RateLimitLine>) -> bool {
        &&& self.template@ == template
        &&& self.tiers@.len() == lines.len()
        &&& forall|j: int|
            0 <= j < lines.len() ==> (#[trigger] lines[j]).spec_matches_tier(self.tiers@[j])
    }
}

/// The route table: built once from a configuration, immutable afterwards,
/// evaluated in declaration order.
#[derive(Debug)]
pub struct PathRateLimits {
    pub route_limits: Vec<Route>,
}

impl PathRateLimits {
    /// Every route in the table is well formed.
    pub open spec fn wf(self) -> bool {
        forall|i: int| 0 <= i < self.route_limits@.len() ==> (#[trigger] self.route_limits@[i]).wf()
    }

    /// The table mirrors the configuration, route for route and tier for
    /// tier.
    pub open spec fn spec_from_config(self, limits: Seq<(String, Vec<RateLimitLine>)>) -> bool {
        &&& self.route_limits@.len() == limits.len()
        &&& forall|i: int|
            0 <= i < limits.len() ==> (#[trigger] self.route_limits@[i]).spec_from_entry(
                limits[i].0@,
                limits[i].1@,
            )
    }

    /// Builds the route table. Fails, reporting the first failed check in
    /// declaration order, exactly when some tier declaration is invalid; the
    /// process is meant not to start in that case.
    #[verifier::loop_isolation(false)]
    pub fn from_config(config: &RateLimitConfig) -> (r: Result<PathRateLimits, ConfigError>)
        ensures
            r is Ok <==> first_config_error(config.limits@) is None,
            r is Err ==> Some(r.unwrap_err()) == first_config_error(config.limits@),
            r is Ok ==> r.unwrap().wf() && r.unwrap().spec_from_config(config.limits@),
    {
        let n = config.limits.len();
        let mut routes: Vec<Route> = Vec::new();
        let mut i: usize = 0;
        proof {
            assert(config.limits@.skip(0) =~= config.limits@);
        }
        while i < n
            invariant
                0 <= i <= n,
                routes@.len() == i,
                first_config_error(config.limits@) == first_config_error(
                    config.limits@.skip(i as int),
                ),
                forall|m: int|
                    0 <= m < i ==> (#[trigger] routes@[m]).spec_from_entry(
                        config.limits@[m].0@,
                        config.limits@[m].1@,
                    ),
                forall|m: int| 0 <= m < i ==> (#[trigger] routes@[m]).wf(),
            decreases n - i,
        {
            proof {
                assert(config.limits@.skip(i as int)[0] == config.limits@[i as int]);
                assert(config.limits@.skip(i as int).drop_first() =~= config.limits@.skip(i + 1));
            }
            let entry = &config.limits[i];
            let template = &entry.0;
            let lines = &entry.1;
            let keys = extract_keys(template.as_str());

            let nl = lines.len();
            let mut tiers: Vec<GCRAConfig> = Vec::new();
            let mut j: usize = 0;
            proof {
                assert(lines@.skip(0) =~= lines@);
            }
            while j < nl
                invariant
                    0 <= j <= nl,
                    tiers@.len() == j,
                    first_line_error(lines@) == first_line_error(lines@.skip(j as int)),
                    forall|m: int|
                        0 <= m < j ==> (#[trigger] lines@[m]).spec_matches_tier(tiers@[m]),
                decreases nl - j,
            {
                proof {
                    assert(lines@.skip(j as int)[0] == lines@[j as int]);
                    assert(lines@.skip(j as int).drop_first() =~= lines@.skip(j + 1));
                }
                match lines[j].to_gcra() {
                    Ok(t) => {
                        tiers.push(t);
                    },
                    Err(e) => {
                        proof {
                            assert(first_line_error(lines@) == Some(e));
                        }
                        return Err(e);
                    },
                }
                j = j + 1;
            }
            proof {
                assert(lines@.skip(nl as int) =~= Seq::<RateLimitLine>::empty());
                assert(first_line_error(lines@) is None);
            }

            let route = Route { required_keys: keys, template: template.clone(), tiers };
            proof {
                assert forall|m: int| 0 <= m < route.tiers@.len() implies (
                #[trigger] route.tiers@[m]).wf() by {
                    assert(lines@[m].spec_matches_tier(route.tiers@[m]));
                }
                assert(route.wf());
            }
            routes.push(route);
            i = i + 1;
        }
        proof {
            assert(config.limits@.skip(n as int) =~= Seq::<(String, Vec<RateLimitLine>)>::empty());
        }
        Ok(PathRateLimits { route_limits: routes })
    }
}

/// The cursor a tier reads: the stored row for its window on this path.
pub open spec fn tier_cursor(
    st: Map<(Seq<char>, u64), u64>,
    path: Seq<char>,
    period_ms: u64,
) -> Option<u64> {
    if st.dom().contains((path, period_ms)) {
        Some(st[(path, period_ms)])
    } else {
        None
    }
}

/// The upserts one route's tiers stage, in declared order, each read
/// against the same store snapshot and instant; `None` when a tier rejects.
pub open spec fn eval_tiers(
    tiers: Seq<GCRAConfig>,
    path: Seq<char>,
    st: Map<(Seq<char>, u64), u64>,
    now: int,
) -> Option<Seq<(Seq<char>, u64, u64)>>
    decreases tiers.len(),
{
    if tiers.len() == 0 {
        Some(Seq::empty())
    } else {
        let tob = tier_cursor(st, path, tiers[0].period_ms);
        if !tiers[0].spec_admits(now, opt_int(tob)) {
            None
        } else {
            match eval_tiers(tiers.drop_first(), path, st, now) {
                None => None,
                Some(rest) => Some(
                    seq![
                        (path, tiers[0].period_ms, tiers[0].spec_next_tob(
                            now,
                            opt_int(tob),
                            1,
                        ) as u64),
                    ] + rest,
                ),
            }
        }
    }
}

/// The upserts all matched routes stage, in table order; `None` when any
/// matched route's tier rejects. An unmatched route stages nothing.
pub open spec fn eval_routes(
    routes: Seq<Route>,
    ctx: Map<Seq<char>, Seq<char>>,
    st: Map<(Seq<char>, u64), u64>,
    now: int,
) -> Option<Seq<(Seq<char>, u64, u64)>>
    decreases routes.len(),
{
    if routes.len() == 0 {
        Some(Seq::empty())
    } else if !routes[0].spec_matches(ctx) {
        eval_routes(routes.drop_first(), ctx, st, now)
    } else {
        let path = spec_subst(routes[0].template@, 0, ctx);
        match (eval_tiers(routes[0].tiers@, path, st, now), eval_routes(
            routes.drop_first(),
            ctx,
            st,
            now,
        )) {
            (Some(ups), Some(rest)) => Some(ups + rest),
            _ => None,
        }
    }
}

/// How far past `now` one admission can place this tier's cursor.
pub open spec fn tier_step(t: GCRAConfig) -> int {
    t.emission_interval_ms as int + 2 * t.delay_tolerance_ms as int
}

impl PathRateLimits {
    /// `v` plus any tier's step stays within `u64`: the headroom one
    /// admission's cursor arithmetic needs at instant `v`.
    pub open spec fn spec_fits(self, v: int) -> bool {
        forall|i: int, j: int|
            0 <= i < self.route_limits@.len() && 0 <= j < self.route_limits@[i].tiers@.len()
                ==> v + tier_step(#[trigger] self.route_limits@[i].tiers@[j]) <= u64::MAX
    }

    /// Whether `v` leaves every tier of the table its headroom.
    #[verifier::loop_isolation(false)]
    pub fn fits(&self, v: u64) -> (r: bool)
        ensures
            r == self.spec_fits(v as int),
    {
        let n = self.route_limits.len();
        let mut i: usize = 0;
        while i < n
            invariant
                0 <= i <= n,
                forall|a: int, b: int|
                    0 <= a < i && 0 <= b < self.route_limits@[a].tiers@.len() ==> v as int
                        + tier_step(#[trigger] self.route_limits@[a].tiers@[b]) <= u64::MAX,
            decreases n - i,
        {
            let route = &self.route_limits[i];
            let nt = route.tiers.len();
            let mut j: usize = 0;
            while j < nt
                invariant
                    0 <= j <= nt,
                    forall|b: int|
                        0 <= b < j ==> v as int + tier_step(#[trigger] route.tiers@[b])
                            <= u64::MAX,
                decreases nt - j,
            {
                let t = &route.tiers[j];
                let rem = u64::MAX - v;
                if t.delay_tolerance_ms > rem || t.delay_tolerance_ms > rem
                    - t.delay_tolerance_ms || t.emission_interval_ms > rem - t.delay_tolerance_ms
                    - t.delay_tolerance_ms {
                    proof {
                        assert(v as int + tier_step(self.route_limits@[i as int].tiers@[j as int])
                            > u64::MAX);
                    }
                    return false;
                }
                j = j + 1;
            }
            i = i + 1;
        }
        true
    }

    /// The pure decision: evaluates every matched route, tier by tier,
    /// against one snapshot of the store and one instant, and returns the
    /// batch of cursor upserts to commit, or `None` when some matched tier
    /// rejects. The caller owns persisting the batch atomically; nothing is
    /// written here.
    #[verifier::loop_isolation(false)]
    pub fn plan(&self, map: &RequestContext, store: &MemoryStore, now: u64) -> (r: Option<
        Vec<StoreRow>,
    >)
        requires
            self.wf(),
            self.spec_fits(now as int),
        ensures
            r is Some <==> (eval_routes(self.route_limits@, map@, store@, now as int) is Some),
            r is Some ==> rows_data(r.unwrap()@) == eval_routes(
                self.route_limits@,
                map@,
                store@,
                now as int,
            ).unwrap(),
    {
        let n = self.route_limits.len();
        let mut staged: Vec<StoreRow> = Vec::new();
        let mut i: usize = 0;
        proof {
            assert(self.route_limits@.skip(0) =~= self.route_limits@);
            assert(rows_data(staged@) =~= Seq::<(Seq<char>, u64, u64)>::empty());
        }
        while i < n
            invariant
                0 <= i <= n,
                ({
                    let full = eval_routes(self.route_limits@, map@, store@, now as int);
                    let suff = eval_routes(
                        self.route_limits@.skip(i as int),
                        map@,
                        store@,
                        now as int,
                    );
                    &&& (full is Some <==> suff is Some)
                    &&& (full is Some ==> full.unwrap() == rows_data(staged@) + suff.unwrap())
                }),
            decreases n - i,
        {
            proof {
                assert(self.route_limits@.skip(i as int)[0] == self.route_limits@[i as int]);
                assert(self.route_limits@.skip(i as int).drop_first() =~= self.route_limits@.skip(
                    i + 1,
                ));
            }
            let route = &self.route_limits[i];

            // Is every key the route requires present in the context?
            let nk = route.required_keys.len();
            let mut all_present = true;
            let mut k: usize = 0;
            while k < nk
                invariant
                    0 <= k <= nk,
                    all_present == (forall|m: int|
                        0 <= m < k ==> map@.dom().contains(
                            (#[trigger] route.required_keys@[m])@,
                        )),
                decreases nk - k,
            {
                let present = map.contains_key(route.required_keys[k].as_str());
                all_present = all_present && present;
                k = k + 1;
            }

            if all_present {
                proof {
                    assert(route.spec_matches(map@));
                    assert(route.wf());
                    assert forall|m: int|
                        0 <= m < spec_keys_from(route.template@, 0).len() implies map@.dom()
                        .contains(spec_keys_from(route.template@, 0)[m]) by {
                        assert(spec_keys_from(route.template@, 0)[m] == (
                        route.required_keys@[m])@);
                    }
                }
                let path = substitute(route.template.as_str(), map);

                let nt = route.tiers.len();
                let mut j: usize = 0;
                proof {
                    assert(route.tiers@.skip(0) =~= route.tiers@);
                }
                while j < nt
                    invariant
                        0 <= j <= nt,
                        ({
                            let full = eval_routes(self.route_limits@, map@, store@, now as int);
                            let tsuff = eval_tiers(
                                route.tiers@.skip(j as int),
                                path@,
                                store@,
                                now as int,
                            );
                            let rsuff = eval_routes(
                                self.route_limits@.skip(i + 1),
                                map@,
                                store@,
                                now as int,
                            );
                            &&& (full is Some <==> (tsuff is Some && rsuff is Some))
                            &&& (full is Some ==> full.unwrap() == rows_data(staged@)
                                + tsuff.unwrap() + rsuff.unwrap())
                        }),
                    decreases nt - j,
                {
                    proof {
                        assert(route.tiers@.skip(j as int)[0] == route.tiers@[j as int]);
                        assert(route.tiers@.skip(j as int).drop_first() =~= route.tiers@.skip(
                            j + 1,
                        ));
                    }
                    let tier = &route.tiers[j];
                    let tob = store.lookup(path.as_str(), tier.period_ms);
                    proof {
                        assert(tob == tier_cursor(store@, path@, tier.period_ms));
                        assert(tier.wf());
                        assert(now as int + tier_step(
                            self.route_limits@[i as int].tiers@[j as int],
                        ) <= u64::MAX);
                        vstd::arithmetic::mul::lemma_mul_basics(tier.emission_interval_ms as int);
                    }
                    match tier.check(now, tob, 1) {
                        Some(new_tob) => {
                            let ghost staged_pre = rows_data(staged@);
                            staged.push(
                                StoreRow {
                                    path: path.clone(),
                                    period_ms: tier.period_ms,
                                    state_ms: new_tob,
                                },
                            );
                            proof {
                                let triple = (
                                    path@,
                                    tier.period_ms,
                                    tier.spec_next_tob(now as int, opt_int(tob), 1) as u64,
                                );
                                assert(new_tob == triple.2);
                                assert(rows_data(staged@) =~= staged_pre + seq![triple]);
                                let tsuff_pre = eval_tiers(
                                    route.tiers@.skip(j as int),
                                    path@,
                                    store@,
                                    now as int,
                                );
                                let tsuff_next = eval_tiers(
                                    route.tiers@.skip(j + 1),
                                    path@,
                                    store@,
                                    now as int,
                                );
                                assert(tsuff_pre is Some <==> tsuff_next is Some);
                                if tsuff_next is Some {
                                    assert(tsuff_pre.unwrap() == seq![triple]
                                        + tsuff_next.unwrap());
                                    assert(staged_pre + (seq![triple] + tsuff_next.unwrap())
                                        =~= (staged_pre + seq![triple]) + tsuff_next.unwrap());
                                }
                            }
                            j = j + 1;
                        },
                        None => {
                            proof {
                                assert(eval_tiers(
                                    route.tiers@.skip(j as int),
                                    path@,
                                    store@,
                                    now as int,
                                ) is None);
                            }
                            return None;
                        },
                    }
                }
                proof {
                    assert(route.tiers@.skip(nt as int) =~= Seq::<GCRAConfig>::empty());
                    let full = eval_routes(self.route_limits@, map@, store@, now as int);
                    let rsuff = eval_routes(
                        self.route_limits@.skip(i + 1),
                        map@,
                        store@,
                        now as int,
                    );
                    if full is Some {
                        assert(rows_data(staged@) + Seq::<(Seq<char>, u64, u64)>::empty()
                            =~= rows_data(staged@));
                        assert(full.unwrap() == rows_data(staged@) + rsuff.unwrap());
                    }
                }
            } else {
                proof {
                    assert(!route.spec_matches(map@));
                }
            }
            i = i + 1;
        }
        proof {
            assert(self.route_limits@.skip(n as int) =~= Seq::<Route>::empty());
            let full = eval_routes(self.route_limits@, map@, store@, now as int);
            assert(full is Some);
            assert(rows_data(staged@) + Seq::<(Seq<char>, u64, u64)>::empty() =~= rows_data(
                staged@,
            ));
            assert(full.unwrap() == rows_data(staged@));
        }
        Some(staged)
    }

    /// Evaluates every matched route against the store at one instant.
    /// When every matched tier admits, commits all staged cursors as one
    /// atomic batch and returns `true`; when any tier rejects, returns
    /// `false` with the store untouched, whatever earlier routes had
    /// staged.
    pub fn check_route_with_context(
        &self,
        map: &RequestContext,
        store: &mut MemoryStore,
        now: u64,
    ) -> (r: bool)
        requires
            self.wf(),
            self.spec_fits(now as int),
        ensures
            r == (eval_routes(self.route_limits@, map@, old(store)@, now as int) is Some),
            r ==> final(store)@ == spec_apply(
                old(store)@,
                eval_routes(self.route_limits@, map@, old(store)@, now as int).unwrap(),
            ),
            !r ==> final(store)@ == old(store)@,
    {
        match self.plan(map, store, now) {
            Some(staged) => {
                store.commit(&staged);
                true
            },
            None => false,
        }
    }

    /// Admits or rejects a request at the present instant: captures the
    /// clock once, evaluates every matched route against the store, and
    /// commits all advanced cursors atomically, or none. `Err` comes, with
    /// the store untouched, exactly when the clock reading leaves some tier
    /// of this table no headroom for its cursor arithmetic.
    pub fn check_now(&self, map: &RequestContext, store: &mut MemoryStore) -> (r: Result<
        bool,
        AdmitError,
    >)
        requires
            self.wf(),
        ensures
            r is Err ==> final(store)@ == old(store)@,
            r is Err ==> exists|now: int| 0 <= now <= u64::MAX && !self.spec_fits(now),
            r == Ok::<bool, AdmitError>(false) ==> final(store)@ == old(store)@,
            r is Ok ==> exists|now: int|
                self.spec_outcome_at(map@, old(store)@, final(store)@, r.unwrap(), now),
    {
        let now = now_millis();
        if !self.fits(now) {
            proof {
                assert(0 <= now as int <= u64::MAX && !self.spec_fits(now as int));
            }
            return Err(AdmitError::ClockOutOfRange);
        }
        let verdict = self.check_route_with_context(map, store, now);
        let r = Ok::<bool, AdmitError>(verdict);
        proof {
            assert(self.spec_outcome_at(map@, old(store)@, store@, r.unwrap(), now as int));
        }
        r
    }

    /// What one clocked evaluation at instant `now` did: the verdict is the
    /// evaluation's, and the store was advanced on success and left alone on
    /// rejection.
    pub open spec fn spec_outcome_at(
        self,
        ctx: Map<Seq<char>, Seq<char>>,
        before: Map<(Seq<char>, u64), u64>,
        after: Map<(Seq<char>, u64), u64>,
        verdict: bool,
        now: int,
    ) -> bool {
        &&& 0 <= now <= u64::MAX
        &&& self.spec_fits(now)
        &&& verdict == (eval_routes(self.route_limits@, ctx, before, now) is Some)
        &&& after == (if (eval_routes(self.route_limits@, ctx, before, now) is Some) {
            spec_apply(before, eval_routes(self.route_limits@, ctx, before, now).unwrap())
        } else {
            before
        })
    }
}

/// The failure of the clocked entry point: the clock reading left no
/// headroom for cursor arithmetic, so nothing was evaluated or written.
#[derive(Clone, Copy, Debug, PartialEq, Eq, Structural)]
pub enum AdmitError {
    ClockOutOfRange,
}

/// Relies on chrono::Utc::now: the wall clock in milliseconds since the
/// Unix epoch; a reading before the epoch comes back as zero.
#[verifier::external_body]
fn now_millis() -> u64 {
    chrono::Utc::now().timestamp_millis().try_into().unwrap_or(0)
}

/// Law: a route whose required keys are not all present in the context is
/// never evaluated and never affects the verdict or the staged cursors:
/// inserting such a route anywhere in the table leaves the whole
/// evaluation unchanged, for every context, store and instant.
pub proof fn lemma_unmatched_route_ignored(
    before: Seq<Route>,
    extra: Route,
    after: Seq<Route>,
    ctx: Map<Seq<char>, Seq<char>>,
    st: Map<(Seq<char>, u64), u64>,
    now: int,
)
    requires
        !extra.spec_matches(ctx),
    ensures
        eval_routes(before + seq![extra] + after, ctx, st, now) == eval_routes(
            before + after,
            ctx,
            st,
            now,
        ),
    decreases before.len(),
{
    let with = before + seq![extra] + after;
    let without = before + after;
    if before.len() == 0 {
        assert(with[0] == extra);
        assert(with.drop_first() =~= after);
        assert(without =~= after);
    } else {
        assert(with[0] == before[0]);
        assert(without[0] == before[0]);
        assert(with.drop_first() =~= before.drop_first() + seq![extra] + after);
        assert(without.drop_first() =~= before.drop_first() + after);
        lemma_unmatched_route_ignored(before.drop_first(), extra, after, ctx, st, now);
    }
}

} // verus!
