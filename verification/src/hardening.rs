//! Production hardening: structured gateway errors, the per-provider
//! circuit breaker, exponential backoff, retry decisions and start-up
//! configuration checks.
use vstd::prelude::*;
use crate::text::{has_prefix, starts_with};
use vstd::arithmetic::power2::{lemma2_to64, lemma2_to64_rest, lemma_pow2_strictly_increases, lemma_pow2_unfold, pow2};
use crate::types::new_request_id;

verus! {

// ─── Structured errors ──────────────────────────────────────────

/// Error of a gateway operation; each variant maps to an HTTP status.
#[derive(Debug, Clone)]
pub enum GatewayError {
    ProviderError { provider: String, message: String, request_id: String },
    CircuitOpen { provider: String, request_id: String },
    RateLimited { retry_after_ms: u64, request_id: String },
    Timeout { message: String, request_id: String },
    ValidationError { message: String, request_id: String },
    AuthError { message: String, request_id: String },
    NotFound { message: String, request_id: String },
    Internal { message: String, request_id: String },
}

/// HTTP status of each variant.
pub open spec fn status_of(e: GatewayError) -> u16 {
    match e {
        GatewayError::ProviderError { .. } => 502,
        GatewayError::CircuitOpen { .. } => 503,
        GatewayError::RateLimited { .. } => 429,
        GatewayError::Timeout { .. } => 504,
        GatewayError::ValidationError { .. } => 400,
        GatewayError::AuthError { .. } => 401,
        GatewayError::NotFound { .. } => 404,
        GatewayError::Internal { .. } => 500,
    }
}

/// Machine-readable code of each variant.
pub open spec fn code_of(e: GatewayError) -> Seq<char> {
    match e {
        GatewayError::ProviderError { .. } => "PROVIDER_ERROR"@,
        GatewayError::CircuitOpen { .. } => "CIRCUIT_OPEN"@,
        GatewayError::RateLimited { .. } => "RATE_LIMITED"@,
        GatewayError::Timeout { .. } => "TIMEOUT"@,
        GatewayError::ValidationError { .. } => "VALIDATION_ERROR"@,
        GatewayError::AuthError { .. } => "AUTH_ERROR"@,
        GatewayError::NotFound { .. } => "NOT_FOUND"@,
        GatewayError::Internal { .. } => "INTERNAL"@,
    }
}

/// Request id carried by each variant.
pub open spec fn request_id_of(e: GatewayError) -> Seq<char> {
    match e {
        GatewayError::ProviderError { request_id, .. } => request_id@,
        GatewayError::CircuitOpen { request_id, .. } => request_id@,
        GatewayError::RateLimited { request_id, .. } => request_id@,
        GatewayError::Timeout { request_id, .. } => request_id@,
        GatewayError::ValidationError { request_id, .. } => request_id@,
        GatewayError::AuthError { request_id, .. } => request_id@,
        GatewayError::NotFound { request_id, .. } => request_id@,
        GatewayError::Internal { request_id, .. } => request_id@,
    }
}

/// Human-readable message of each variant.
pub open spec fn message_of(e: GatewayError) -> Seq<char> {
    match e {
        GatewayError::ProviderError { message, .. } => message@,
        GatewayError::CircuitOpen { provider, .. } => "Circuit breaker open for provider: "@ + provider@,
        GatewayError::RateLimited { .. } => "Rate limit exceeded"@,
        GatewayError::Timeout { message, .. } => message@,
        GatewayError::ValidationError { message, .. } => message@,
        GatewayError::AuthError { message, .. } => message@,
        GatewayError::NotFound { message, .. } => message@,
        GatewayError::Internal { message, .. } => message@,
    }
}

impl GatewayError {
    pub fn provider_error(provider: String, message: String) -> (r: Self)
        ensures
            r matches GatewayError::ProviderError { provider: p, message: m, request_id }
                && p == provider && m == message && request_id@.len() == 36,
    {
        GatewayError::ProviderError { provider, message, request_id: new_request_id() }
    }

    pub fn circuit_open(provider: String) -> (r: Self)
        ensures
            r matches GatewayError::CircuitOpen { provider: p, request_id } && p == provider
                && request_id@.len() == 36,
    {
        GatewayError::CircuitOpen { provider, request_id: new_request_id() }
    }

    pub fn rate_limited(retry_after_ms: u64) -> (r: Self)
        ensures
            r matches GatewayError::RateLimited { retry_after_ms: t, request_id } && t == retry_after_ms
                && request_id@.len() == 36,
    {
        GatewayError::RateLimited { retry_after_ms, request_id: new_request_id() }
    }

    pub fn timeout(message: String) -> (r: Self)
        ensures
            r matches GatewayError::Timeout { message: m, request_id } && m == message
                && request_id@.len() == 36,
    {
        GatewayError::Timeout { message, request_id: new_request_id() }
    }

    pub fn validation(message: String) -> (r: Self)
        ensures
            r matches GatewayError::ValidationError { message: m, request_id } && m == message
                && request_id@.len() == 36,
    {
        GatewayError::ValidationError { message, request_id: new_request_id() }
    }

    pub fn auth(message: String) -> (r: Self)
        ensures
            r matches GatewayError::AuthError { message: m, request_id } && m == message
                && request_id@.len() == 36,
    {
        GatewayError::AuthError { message, request_id: new_request_id() }
    }

    pub fn not_found(message: String) -> (r: Self)
        ensures
            r matches GatewayError::NotFound { message: m, request_id } && m == message
                && request_id@.len() == 36,
    {
        GatewayError::NotFound { message, request_id: new_request_id() }
    }

    pub fn internal(message: String) -> (r: Self)
        ensures
            r matches GatewayError::Internal { message: m, request_id } && m == message
                && request_id@.len() == 36,
    {
        GatewayError::Internal { message, request_id: new_request_id() }
    }

    /// HTTP status code of the error.
    pub fn status_code(&self) -> (r: u16)
        ensures
            r == status_of(*self),
    {
        match self {
            GatewayError::ProviderError { .. } => 502,
            GatewayError::CircuitOpen { .. } => 503,
            GatewayError::RateLimited { .. } => 429,
            GatewayError::Timeout { .. } => 504,
            GatewayError::ValidationError { .. } => 400,
            GatewayError::AuthError { .. } => 401,
            GatewayError::NotFound { .. } => 404,
            GatewayError::Internal { .. } => 500,
        }
    }

    /// Machine-readable error code.
    pub fn error_code(&self) -> (r: &'static str)
        ensures
            r@ == code_of(*self),
    {
        match self {
            GatewayError::ProviderError { .. } => "PROVIDER_ERROR",
            GatewayError::CircuitOpen { .. } => "CIRCUIT_OPEN",
            GatewayError::RateLimited { .. } => "RATE_LIMITED",
            GatewayError::Timeout { .. } => "TIMEOUT",
            GatewayError::ValidationError { .. } => "VALIDATION_ERROR",
            GatewayError::AuthError { .. } => "AUTH_ERROR",
            GatewayError::NotFound { .. } => "NOT_FOUND",
            GatewayError::Internal { .. } => "INTERNAL",
        }
    }

    /// Request id of the error.
    pub fn request_id(&self) -> (r: &str)
        ensures
            r@ == request_id_of(*self),
    {
        match self {
            GatewayError::ProviderError { request_id, .. } => request_id.as_str(),
            GatewayError::CircuitOpen { request_id, .. } => request_id.as_str(),
            GatewayError::RateLimited { request_id, .. } => request_id.as_str(),
            GatewayError::Timeout { request_id, .. } => request_id.as_str(),
            GatewayError::ValidationError { request_id, .. } => request_id.as_str(),
            GatewayError::AuthError { request_id, .. } => request_id.as_str(),
            GatewayError::NotFound { request_id, .. } => request_id.as_str(),
            GatewayError::Internal { request_id, .. } => request_id.as_str(),
        }
    }

    /// Human-readable message of the error.
    pub fn message(&self) -> (r: String)
        ensures
            r@ == message_of(*self),
    {
        match self {
            GatewayError::ProviderError { message, .. } => String::from_str(message.as_str()),
            GatewayError::CircuitOpen { provider, .. } => {
                let mut m = String::from_str("Circuit breaker open for provider: ");
                m.append(provider.as_str());
                m
            },
            GatewayError::RateLimited { .. } => String::from_str("Rate limit exceeded"),
            GatewayError::Timeout { message, .. } => String::from_str(message.as_str()),
            GatewayError::ValidationError { message, .. } => String::from_str(message.as_str()),
            GatewayError::AuthError { message, .. } => String::from_str(message.as_str()),
            GatewayError::NotFound { message, .. } => String::from_str(message.as_str()),
            GatewayError::Internal { message, .. } => String::from_str(message.as_str()),
        }
    }
}

// ─── Circuit breaker ────────────────────────────────────────────

/// State of a circuit breaker.
#[derive(Debug, Clone, Copy, PartialEq, Eq, Structural)]
pub enum CircuitState {
    /// Normal operation.
    Closed,
    /// Rejecting requests.
    Open,
    /// Probing for recovery.
    HalfOpen,
}

/// Configuration of circuit breaker behaviour (times in milliseconds).
#[derive(Debug, Clone, Copy)]
pub struct CircuitBreakerConfig {
    /// Consecutive failures before opening (default 5).
    pub failure_threshold: usize,
    /// Time before an open breaker half-opens to probe recovery (default 30 s).
    pub recovery_timeout_ms: u64,
    /// Requests allowed while half-open (default 3).
    pub half_open_max_requests: usize,
}

impl Default for CircuitBreakerConfig {
    fn default() -> (r: Self)
        ensures
            r.failure_threshold == 5,
            r.recovery_timeout_ms == 30_000,
            r.half_open_max_requests == 3,
    {
        CircuitBreakerConfig { failure_threshold: 5, recovery_timeout_ms: 30_000, half_open_max_requests: 3 }
    }
}

/// Reads the wall clock: `std::time::SystemTime::now()` as milliseconds since
/// the Unix epoch; 0 when the clock reads before 1970 (`duration_since`
/// fails then). Nothing is promised of the value: it is the machine's time.
#[verifier::external_body]
pub(crate) fn clock_millis() -> (r: u64) {
    match std::time::SystemTime::now().duration_since(std::time::UNIX_EPOCH) {
        Ok(d) => d.as_millis() as u64,
        Err(_) => 0,
    }
}

/// Abstract state of a breaker: its state, counters and the time of the
/// last transition into `Open` or `Closed` (milliseconds).
pub struct BreakerView {
    pub state: CircuitState,
    pub failure_count: nat,
    pub success_count: nat,
    pub last_change_ms: nat,
    /// Requests let through since the breaker last half-opened.
    pub admitted: nat,
}

/// Per-provider circuit breaker.
#[derive(Debug)]
pub struct CircuitBreaker {
    config: CircuitBreakerConfig,
    state: CircuitState,
    failure_count: usize,
    success_count: usize,
    last_state_change_ms: u64,
    half_open_admitted: usize,
}

/// What the breaker allows on a check, and its state afterwards.
pub open spec fn check_outcome(cfg: CircuitBreakerConfig, v: BreakerView, now_ms: nat) -> (bool, BreakerView) {
    match v.state {
        CircuitState::Closed => (true, v),
        CircuitState::Open => if now_ms >= v.last_change_ms + cfg.recovery_timeout_ms {
            (true, BreakerView { state: CircuitState::HalfOpen, success_count: 0, admitted: 1, ..v })
        } else {
            (false, v)
        },
        CircuitState::HalfOpen => if v.admitted < cfg.half_open_max_requests {
            (true, BreakerView { admitted: v.admitted + 1, ..v })
        } else {
            (false, v)
        },
    }
}

/// The breaker after a successful request at time `now_ms`.
pub open spec fn after_success(cfg: CircuitBreakerConfig, v: BreakerView, now_ms: nat) -> BreakerView {
    match v.state {
        CircuitState::Closed => BreakerView { failure_count: 0, ..v },
        CircuitState::HalfOpen => if v.success_count + 1 >= cfg.half_open_max_requests {
            BreakerView { state: CircuitState::Closed, failure_count: 0, success_count: 0, last_change_ms: now_ms, admitted: 0 }
        } else {
            BreakerView { success_count: v.success_count + 1, ..v }
        },
        CircuitState::Open => v,
    }
}

/// The breaker after a failed request at time `now_ms`.
pub open spec fn after_failure(cfg: CircuitBreakerConfig, v: BreakerView, now_ms: nat) -> BreakerView {
    match v.state {
        CircuitState::Closed => if v.failure_count + 1 >= cfg.failure_threshold {
            BreakerView { state: CircuitState::Open, failure_count: v.failure_count + 1, last_change_ms: now_ms, ..v }
        } else {
            BreakerView { failure_count: v.failure_count + 1, ..v }
        },
        CircuitState::HalfOpen => BreakerView {
            state: CircuitState::Open,
            failure_count: 0,
            success_count: 0,
            last_change_ms: now_ms,
            admitted: 0,
        },
        CircuitState::Open => v,
    }
}

/// The breaker after `n` consecutive failures at time `now_ms`.
pub open spec fn after_failures(cfg: CircuitBreakerConfig, v: BreakerView, now_ms: nat, n: nat) -> BreakerView
    decreases n,
{
    if n == 0 {
        v
    } else {
        after_failure(cfg, after_failures(cfg, v, now_ms, (n - 1) as nat), now_ms)
    }
}

/// The breaker after `n` consecutive successes at time `now_ms`.
pub open spec fn after_successes(cfg: CircuitBreakerConfig, v: BreakerView, now_ms: nat, n: nat) -> BreakerView
    decreases n,
{
    if n == 0 {
        v
    } else {
        after_success(cfg, after_successes(cfg, v, now_ms, (n - 1) as nat), now_ms)
    }
}

impl CircuitBreaker {
    /// Abstract state of the breaker.
    pub closed spec fn view(&self) -> BreakerView {
        BreakerView {
            state: self.state,
            failure_count: self.failure_count as nat,
            success_count: self.success_count as nat,
            last_change_ms: self.last_state_change_ms as nat,
            admitted: self.half_open_admitted as nat,
        }
    }

    /// Configuration the breaker was built with.
    pub closed spec fn cfg(&self) -> CircuitBreakerConfig {
        self.config
    }

    /// The counters stay below the thresholds that would move the state on.
    #[verifier::type_invariant]
    closed spec fn counters_in_range(&self) -> bool {
        &&& self.state == CircuitState::Closed ==> (self.failure_count < self.config.failure_threshold
            || self.failure_count == 0)
        &&& self.state == CircuitState::HalfOpen ==> (self.success_count < self.config.half_open_max_requests
            || self.success_count == 0)
    }

    /// A closed breaker with zero counters, its last transition at `now_ms`.
    pub fn new_at(config: CircuitBreakerConfig, now_ms: u64) -> (r: Self)
        ensures
            r.cfg() == config,
            r.view() == (BreakerView {
                state: CircuitState::Closed,
                failure_count: 0,
                success_count: 0,
                last_change_ms: now_ms as nat,
                admitted: 0,
            }),
    {
        CircuitBreaker {
            config,
            state: CircuitState::Closed,
            failure_count: 0,
            success_count: 0,
            last_state_change_ms: now_ms,
            half_open_admitted: 0,
        }
    }

    /// A closed breaker with zero counters, stamped with the current time.
    pub fn new(config: CircuitBreakerConfig) -> (r: Self)
        ensures
            r.cfg() == config,
            r.view().state == CircuitState::Closed,
            r.view().failure_count == 0,
            r.view().success_count == 0,
    {
        Self::new_at(config, clock_millis())
    }

    pub fn get_state(&self) -> (r: CircuitState)
        ensures
            r == self.view().state,
    {
        self.state
    }

    /// Whether a request may proceed at time `now_ms`; an open breaker whose
    /// recovery timeout has elapsed half-opens.
    pub fn check_at(&mut self, now_ms: u64) -> (r: Result<(), GatewayError>)
        ensures
            final(self).cfg() == old(self).cfg(),
            final(self).view() == check_outcome(old(self).cfg(), old(self).view(), now_ms as nat).1,
            r is Ok <==> check_outcome(old(self).cfg(), old(self).view(), now_ms as nat).0,
            r matches Err(e) ==> e matches GatewayError::CircuitOpen { provider, .. } && provider@ == "provider"@,
    {
        proof { use_type_invariant(&*self); }
        match self.state {
            CircuitState::Closed => Ok(()),
            CircuitState::Open => {
                let elapsed_ok = now_ms >= self.last_state_change_ms
                    && now_ms - self.last_state_change_ms >= self.config.recovery_timeout_ms;
                if elapsed_ok {
                    *self = CircuitBreaker { state: CircuitState::HalfOpen, success_count: 0, half_open_admitted: 1, ..*self };
                    Ok(())
                } else {
                    Err(GatewayError::circuit_open(String::from_str("provider")))
                }
            },
            CircuitState::HalfOpen => {
                if self.half_open_admitted < self.config.half_open_max_requests {
                    *self = CircuitBreaker { half_open_admitted: self.half_open_admitted + 1, ..*self };
                    Ok(())
                } else {
                    Err(GatewayError::circuit_open(String::from_str("provider")))
                }
            },
        }
    }

    /// Whether a request may proceed now.
    pub fn check(&mut self) -> (r: Result<(), GatewayError>)
        ensures
            final(self).cfg() == old(self).cfg(),
            exists|t: nat| #![trigger check_outcome(old(self).cfg(), old(self).view(), t)]
                final(self).view() == check_outcome(old(self).cfg(), old(self).view(), t).1
                && (r is Ok <==> check_outcome(old(self).cfg(), old(self).view(), t).0),
    {
        let now = clock_millis();
        let r = self.check_at(now);
        assert(check_outcome(old(self).cfg(), old(self).view(), now as nat).0 == r is Ok);
        r
    }

    /// Record a successful request at time `now_ms`.
    pub fn record_success_at(&mut self, now_ms: u64)
        ensures
            final(self).cfg() == old(self).cfg(),
            final(self).view() == after_success(old(self).cfg(), old(self).view(), now_ms as nat),
    {
        proof { use_type_invariant(&*self); }
        match self.state {
            CircuitState::Closed => {
                *self = CircuitBreaker { failure_count: 0, ..*self };
            },
            CircuitState::HalfOpen => {
                let success_count = self.success_count + 1;
                if success_count >= self.config.half_open_max_requests {
                    *self = CircuitBreaker {
                        state: CircuitState::Closed,
                        failure_count: 0,
                        success_count: 0,
                        last_state_change_ms: now_ms,
                        half_open_admitted: 0,
                        ..*self
                    };
                } else {
                    *self = CircuitBreaker { success_count, ..*self };
                }
            },
            CircuitState::Open => {},
        }
    }

    /// Record a successful request now.
    pub fn record_success(&mut self)
        ensures
            final(self).cfg() == old(self).cfg(),
            exists|t: nat| final(self).view() == #[trigger] after_success(old(self).cfg(), old(self).view(), t),
    {
        let now = clock_millis();
        self.record_success_at(now);
    }

    /// Record a failed request at time `now_ms`.
    pub fn record_failure_at(&mut self, now_ms: u64)
        ensures
            final(self).cfg() == old(self).cfg(),
            final(self).view() == after_failure(old(self).cfg(), old(self).view(), now_ms as nat),
    {
        proof { use_type_invariant(&*self); }
        match self.state {
            CircuitState::Closed => {
                let failure_count = self.failure_count + 1;
                if failure_count >= self.config.failure_threshold {
                    *self = CircuitBreaker {
                        state: CircuitState::Open,
                        failure_count,
                        last_state_change_ms: now_ms,
                        ..*self
                    };
                } else {
                    *self = CircuitBreaker { failure_count, ..*self };
                }
            },
            CircuitState::HalfOpen => {
                *self = CircuitBreaker {
                    state: CircuitState::Open,
                    failure_count: 0,
                    success_count: 0,
                    last_state_change_ms: now_ms,
                    half_open_admitted: 0,
                    ..*self
                };
            },
            CircuitState::Open => {},
        }
    }

    /// Record a failed request now.
    pub fn record_failure(&mut self)
        ensures
            final(self).cfg() == old(self).cfg(),
            exists|t: nat| final(self).view() == #[trigger] after_failure(old(self).cfg(), old(self).view(), t),
    {
        let now = clock_millis();
        self.record_failure_at(now);
    }
}

/// While half-open the breaker lets at most `half_open_max_requests`
/// requests through: each one it lets through is counted, and once that
/// many have been, it refuses without changing.
pub proof fn law_half_open_admits_at_most(cfg: CircuitBreakerConfig, v: BreakerView, now_ms: nat)
    requires
        v.state == CircuitState::HalfOpen,
    ensures
        check_outcome(cfg, v, now_ms).0 ==> check_outcome(cfg, v, now_ms).1.admitted == v.admitted + 1
            && v.admitted < cfg.half_open_max_requests,
        v.admitted >= cfg.half_open_max_requests ==> !check_outcome(cfg, v, now_ms).0 && check_outcome(
            cfg,
            v,
            now_ms,
        ).1 == v,
{
}

/// A closed breaker with no recorded failures stays closed through fewer
/// than `failure_threshold` consecutive failures and is open once that many
/// have been recorded; further failures leave it open.
pub proof fn lemma_trips_after_threshold(cfg: CircuitBreakerConfig, v: BreakerView, now_ms: nat, n: nat)
    requires
        v.state == CircuitState::Closed,
        v.failure_count == 0,
        cfg.failure_threshold >= 1,
    ensures
        n < cfg.failure_threshold ==> after_failures(cfg, v, now_ms, n).state == CircuitState::Closed
            && after_failures(cfg, v, now_ms, n).failure_count == n,
        n >= cfg.failure_threshold ==> after_failures(cfg, v, now_ms, n).state == CircuitState::Open,
    decreases n,
{
    if n > 0 {
        lemma_trips_after_threshold(cfg, v, now_ms, (n - 1) as nat);
    }
}

/// An open breaker rejects every request until its recovery timeout has
/// elapsed, without changing state; from then on the next check lets the
/// request through and half-opens the breaker with a zero success count.
pub proof fn lemma_open_waits_for_recovery(cfg: CircuitBreakerConfig, v: BreakerView, now_ms: nat)
    requires
        v.state == CircuitState::Open,
    ensures
        now_ms < v.last_change_ms + cfg.recovery_timeout_ms ==> !check_outcome(cfg, v, now_ms).0
            && check_outcome(cfg, v, now_ms).1 == v,
        now_ms >= v.last_change_ms + cfg.recovery_timeout_ms ==> check_outcome(cfg, v, now_ms).0
            && check_outcome(cfg, v, now_ms).1.state == CircuitState::HalfOpen
            && check_outcome(cfg, v, now_ms).1.success_count == 0,
{
}

/// A half-open breaker with no successes yet closes again, with both counters
/// reset, after `half_open_max_requests` consecutive successes.
pub proof fn lemma_half_open_recovers(cfg: CircuitBreakerConfig, v: BreakerView, now_ms: nat)
    requires
        v.state == CircuitState::HalfOpen,
        v.success_count == 0,
        cfg.half_open_max_requests >= 1,
    ensures
        after_successes(cfg, v, now_ms, cfg.half_open_max_requests as nat).state == CircuitState::Closed,
        after_successes(cfg, v, now_ms, cfg.half_open_max_requests as nat).failure_count == 0,
        after_successes(cfg, v, now_ms, cfg.half_open_max_requests as nat).success_count == 0,
{
    lemma_half_open_counts(cfg, v, now_ms, (cfg.half_open_max_requests - 1) as nat);
}

/// Fewer than the allowed successes keep a fresh half-open breaker half-open,
/// counting them.
proof fn lemma_half_open_counts(cfg: CircuitBreakerConfig, v: BreakerView, now_ms: nat, n: nat)
    requires
        v.state == CircuitState::HalfOpen,
        v.success_count == 0,
        n < cfg.half_open_max_requests,
    ensures
        after_successes(cfg, v, now_ms, n).state == CircuitState::HalfOpen,
        after_successes(cfg, v, now_ms, n).success_count == n,
    decreases n,
{
    if n > 0 {
        lemma_half_open_counts(cfg, v, now_ms, (n - 1) as nat);
    }
}

/// Any failure while half-open reopens the breaker, stamped with that time.
pub proof fn lemma_half_open_failure_reopens(cfg: CircuitBreakerConfig, v: BreakerView, now_ms: nat)
    requires
        v.state == CircuitState::HalfOpen,
    ensures
        after_failure(cfg, v, now_ms).state == CircuitState::Open,
        after_failure(cfg, v, now_ms).last_change_ms == now_ms,
{
}

/// A success while closed forgets the failures counted so far.
pub proof fn lemma_closed_success_resets(cfg: CircuitBreakerConfig, v: BreakerView, now_ms: nat)
    requires
        v.state == CircuitState::Closed,
    ensures
        after_success(cfg, v, now_ms).state == CircuitState::Closed,
        after_success(cfg, v, now_ms).failure_count == 0,
{
}

/// A closed breaker lets every request through and is left unchanged.
pub proof fn lemma_closed_allows(cfg: CircuitBreakerConfig, v: BreakerView, now_ms: nat)
    requires
        v.state == CircuitState::Closed,
    ensures
        check_outcome(cfg, v, now_ms).0,
        check_outcome(cfg, v, now_ms).1 == v,
{
}

// ─── Retry with exponential backoff ─────────────────────────────

/// Retry behaviour (delays in milliseconds).
#[derive(Debug, Clone, Copy)]
pub struct RetryConfig {
    /// Retries after the first attempt (default 3).
    pub max_retries: usize,
    /// Delay before the first retry (default 100 ms).
    pub base_delay_ms: u64,
    /// Cap on the delay between retries (default 5 s).
    pub max_delay_ms: u64,
    /// Add jitter to the delays (default on).
    pub jitter: bool,
}

impl Default for RetryConfig {
    fn default() -> (r: Self)
        ensures
            r.max_retries == 3,
            r.base_delay_ms == 100,
            r.max_delay_ms == 5000,
            r.jitter,
    {
        RetryConfig { max_retries: 3, base_delay_ms: 100, max_delay_ms: 5000, jitter: true }
    }
}

/// Un-jittered delay: `base * 2^attempt`, capped at `max`.
pub open spec fn capped_delay(attempt: usize, base_ms: u64, max_ms: u64) -> nat {
    let d = base_ms * pow2(attempt as nat);
    if d < max_ms { d as nat } else { max_ms as nat }
}

/// A delay `c` varied by up to a fifth of it either way: from `c - c/5`,
/// `draw` picks one of the `2 * (c/5) + 1` whole milliseconds up to
/// `c + c/5`; capped at `u64::MAX`.
pub open spec fn jittered(c: nat, draw: u64) -> nat {
    let v = c / 5;
    let d = c - v + (draw as nat) % ((2 * v + 1) as nat);
    if d > u64::MAX { u64::MAX as nat } else { d as nat }
}

/// Delay before retry number `attempt`: the capped delay, varied by up to
/// ±20% as `draw` picks when jitter is on.
pub open spec fn backoff_delay(attempt: usize, base_ms: u64, max_ms: u64, jitter: bool, draw: u64) -> nat {
    let c = capped_delay(attempt, base_ms, max_ms);
    if jitter { jittered(c, draw) } else { c }
}

/// A random 64-bit number: the first half of the 128 random bits of
/// `uuid::Uuid::new_v4`, taken with `as_u64_pair`. Nothing is promised of
/// its value: it is random.
#[verifier::external_body]
fn random_draw() -> u64 {
    uuid::Uuid::new_v4().as_u64_pair().0
}

proof fn lemma_pow2_monotone(e1: nat, e2: nat)
    requires
        e1 <= e2,
    ensures
        pow2(e1) <= pow2(e2),
{
    if e1 < e2 {
        lemma_pow2_strictly_increases(e1, e2);
    }
}

/// From 64 on, `2^e` no longer fits in 64 bits.
proof fn lemma_pow2_large(e: nat)
    requires
        e >= 64,
    ensures
        pow2(e) > u64::MAX,
{
    lemma2_to64();
    lemma_pow2_monotone(64, e);
}

/// `2^e` for `e < 64`, computed.
fn pow2_u64(e: u32) -> (r: u64)
    requires
        e < 64,
    ensures
        r == pow2(e as nat),
{
    proof { lemma2_to64(); }
    let mut r: u64 = 1;
    let mut i: u32 = 0;
    while i < e
        invariant
            i <= e < 64,
            r == pow2(i as nat),
        decreases e - i,
    {
        proof {
            lemma2_to64_rest();
            lemma_pow2_monotone((i + 1) as nat, 63);
            lemma_pow2_unfold((i + 1) as nat);
        }
        r = r * 2;
        i = i + 1;
    }
    r
}

/// Backoff delay in milliseconds for the given random draw: `base_delay *
/// 2^attempt`, capped at `max_delay`; with jitter, varied by up to ±20% as
/// the draw picks.
pub fn backoff_with_draw(attempt: usize, base_delay_ms: u64, max_delay_ms: u64, jitter: bool, draw: u64) -> (r: u64)
    ensures
        r == backoff_delay(attempt, base_delay_ms, max_delay_ms, jitter, draw),
{
    let capped: u64 = if base_delay_ms == 0 {
        0
    } else if attempt >= 64 {
        proof {
            lemma_pow2_large(attempt as nat);
            assert(base_delay_ms * pow2(attempt as nat) >= pow2(attempt as nat)) by (nonlinear_arith)
                requires
                    base_delay_ms >= 1,
                    pow2(attempt as nat) > u64::MAX,
            ;
        }
        max_delay_ms
    } else {
        let p = pow2_u64(attempt as u32);
        match base_delay_ms.checked_mul(p) {
            Some(d) => if d < max_delay_ms { d } else { max_delay_ms },
            None => max_delay_ms,
        }
    };
    if jitter {
        let variance = capped / 5;
        let offset = draw % (2 * variance + 1);
        let d: u128 = (capped - variance) as u128 + offset as u128;
        if d > u64::MAX as u128 { u64::MAX } else { d as u64 }
    } else {
        capped
    }
}

/// Backoff delay in milliseconds: `base_delay * 2^attempt`, capped at
/// `max_delay`; with jitter, varied at random by up to ±20%.
pub fn exponential_backoff(attempt: usize, base_delay_ms: u64, max_delay_ms: u64, jitter: bool) -> (r: u64)
    ensures
        exists|draw: u64| r == #[trigger] backoff_delay(attempt, base_delay_ms, max_delay_ms, jitter, draw),
        !jitter ==> r == capped_delay(attempt, base_delay_ms, max_delay_ms),
        jitter ==> capped_delay(attempt, base_delay_ms, max_delay_ms) * 4 / 5 <= r
            <= capped_delay(attempt, base_delay_ms, max_delay_ms) * 6 / 5,
{
    let draw = if jitter { random_draw() } else { 0 };
    let r = backoff_with_draw(attempt, base_delay_ms, max_delay_ms, jitter, draw);
    proof { lemma_jitter_within_a_fifth(capped_delay(attempt, base_delay_ms, max_delay_ms), draw); }
    r
}

/// A jittered delay stays within a fifth of the delay either way.
pub proof fn lemma_jitter_within_a_fifth(c: nat, draw: u64)
    requires
        c <= u64::MAX,
    ensures
        c * 4 / 5 <= jittered(c, draw) <= c * 6 / 5,
{
    let v = c / 5;
    assert((draw as nat) % ((2 * v + 1) as nat) <= 2 * v);
    assert(c * 4 / 5 <= c - v && c + v <= c * 6 / 5) by (nonlinear_arith)
        requires
            v == c / 5,
            c >= 0,
    ;
}

/// What the retry loop does after a failed attempt.
#[derive(Debug, Clone, Copy, PartialEq, Eq, Structural)]
pub enum RetryStep {
    /// Return the error to the caller.
    GiveUp,
    /// Sleep this many milliseconds, then try again.
    RetryAfter(u64),
}

/// `c` is an ASCII decimal digit.
pub open spec fn is_digit(c: char) -> bool {
    '0' <= c && c <= '9'
}

/// A standalone three-digit number from 400 to 499 (an HTTP client-error
/// status) starts at index `i` of `s`.
pub open spec fn client_status_at(s: Seq<char>, i: int) -> bool {
    &&& 0 <= i && i + 3 <= s.len()
    &&& s[i] == '4' && is_digit(s[i + 1]) && is_digit(s[i + 2])
    &&& (i == 0 || !is_digit(s[i - 1]))
    &&& (i + 3 == s.len() || !is_digit(s[i + 3]))
}

/// The error text reports an HTTP client error (a 4xx status).
pub open spec fn is_client_error(text: Seq<char>) -> bool {
    exists|i: int| #[trigger] client_status_at(text, i)
}

fn digit(c: char) -> (r: bool)
    ensures
        r == is_digit(c),
{
    '0' <= c && c <= '9'
}

/// `true` when the error text reports a 4xx status.
pub fn reports_client_error(text: &str) -> (r: bool)
    ensures
        r == is_client_error(text@),
{
    let n = text.unicode_len();
    if n < 3 {
        return false;
    }
    let mut i: usize = 0;
    while i <= n - 3
        invariant
            n == text@.len(),
            3 <= n,
            i <= n - 2,
            forall|j: int| 0 <= j < i ==> !#[trigger] client_status_at(text@, j),
        decreases n - i,
    {
        let here = text.get_char(i) == '4' && digit(text.get_char(i + 1)) && digit(text.get_char(i + 2))
            && (i == 0 || !digit(text.get_char(i - 1))) && (i + 3 == n || !digit(text.get_char(i + 3)));
        if here {
            assert(client_status_at(text@, i as int));
            return true;
        }
        i = i + 1;
    }
    assert forall|j: int| !#[trigger] client_status_at(text@, j) by {
        if 0 <= j && j + 3 <= n {
            assert(j < i);
        }
    }
    false
}

/// Decision after a failed call, when `retries_done` retries have already
/// been made: client errors give up at once, and so does a failure once
/// `max_retries` retries have been spent; anything else is retried after
/// `base_delay * 2^retries_done`, capped (so the first retry waits the base
/// delay).
pub open spec fn retry_step_of(config: RetryConfig, retries_done: usize, text: Seq<char>, draw: u64) -> RetryStep {
    if is_client_error(text) || retries_done >= config.max_retries {
        RetryStep::GiveUp
    } else {
        RetryStep::RetryAfter(
            backoff_delay(retries_done, config.base_delay_ms, config.max_delay_ms, config.jitter, draw) as u64,
        )
    }
}

/// The decision of the retry loop after a failed call, `retries_done`
/// retries into the loop, with `draw` picking the jitter.
pub fn retry_step_with_draw(config: &RetryConfig, retries_done: usize, error_text: &str, draw: u64) -> (r: RetryStep)
    ensures
        r == retry_step_of(*config, retries_done, error_text@, draw),
{
    if reports_client_error(error_text) {
        return RetryStep::GiveUp;
    }
    if retries_done >= config.max_retries {
        return RetryStep::GiveUp;
    }
    RetryStep::RetryAfter(
        backoff_with_draw(retries_done, config.base_delay_ms, config.max_delay_ms, config.jitter, draw),
    )
}

/// The decision of the retry loop after a failed call, `retries_done`
/// retries into the loop; the jitter, when on, is drawn at random.
pub fn next_retry_step(config: &RetryConfig, retries_done: usize, error_text: &str) -> (r: RetryStep)
    ensures
        exists|draw: u64| r == #[trigger] retry_step_of(*config, retries_done, error_text@, draw),
        !config.jitter ==> r == retry_step_of(*config, retries_done, error_text@, 0),
{
    let draw = if config.jitter { random_draw() } else { 0 };
    retry_step_with_draw(config, retries_done, error_text, draw)
}

/// A client error is never retried, whatever the number of retries so far.
pub proof fn lemma_client_errors_not_retried(config: RetryConfig, retries_done: usize, text: Seq<char>, draw: u64)
    requires
        is_client_error(text),
    ensures
        retry_step_of(config, retries_done, text, draw) == RetryStep::GiveUp,
{
}

/// The loop makes `max_retries` retries after the first call and no more:
/// a server error is retried while fewer retries have been made, and given
/// up once they are spent.
pub proof fn lemma_retries_bounded(config: RetryConfig, retries_done: usize, text: Seq<char>, draw: u64)
    requires
        !is_client_error(text),
    ensures
        retries_done < config.max_retries <==> retry_step_of(config, retries_done, text, draw) is RetryAfter,
{
}

/// Without jitter, the loop waits the base delay (capped at the maximum)
/// before the first retry.
pub proof fn lemma_first_retry_waits_base_delay(config: RetryConfig, text: Seq<char>, draw: u64)
    requires
        !is_client_error(text),
        config.max_retries >= 1,
        !config.jitter,
    ensures
        retry_step_of(config, 0, text, draw) == RetryStep::RetryAfter(
            if config.base_delay_ms < config.max_delay_ms { config.base_delay_ms } else { config.max_delay_ms },
        ),
{
    lemma2_to64();
}

/// Without jitter the delay never exceeds the configured maximum, and grows
/// with the attempt number.
pub proof fn lemma_backoff_capped_and_monotone(a1: usize, a2: usize, base_ms: u64, max_ms: u64)
    requires
        a1 <= a2,
    ensures
        capped_delay(a1, base_ms, max_ms) <= max_ms,
        capped_delay(a1, base_ms, max_ms) <= capped_delay(a2, base_ms, max_ms),
{
    lemma_pow2_monotone(a1 as nat, a2 as nat);
    assert(base_ms * pow2(a1 as nat) <= base_ms * pow2(a2 as nat)) by (nonlinear_arith)
        requires
            pow2(a1 as nat) <= pow2(a2 as nat),
    ;
}

// ─── Timeouts and shutdown ──────────────────────────────────────

/// Per-request timeouts (milliseconds).
#[derive(Debug, Clone, Copy)]
pub struct TimeoutConfig {
    /// Timeout of REST endpoints (default 30 s).
    pub rest_timeout_ms: u64,
    /// Timeout of gRPC unary calls (default 10 s).
    pub grpc_timeout_ms: u64,
}

impl Default for TimeoutConfig {
    fn default() -> (r: Self)
        ensures
            r.rest_timeout_ms == 30_000,
            r.grpc_timeout_ms == 10_000,
    {
        TimeoutConfig { rest_timeout_ms: 30_000, grpc_timeout_ms: 10_000 }
    }
}

/// Graceful shutdown settings.
#[derive(Debug, Clone, Copy)]
pub struct GracefulShutdown {
    /// Drain time for in-flight requests (default 30 s).
    pub drain_timeout_ms: u64,
}

impl Default for GracefulShutdown {
    fn default() -> (r: Self)
        ensures
            r.drain_timeout_ms == 30_000,
    {
        GracefulShutdown { drain_timeout_ms: 30_000 }
    }
}

// ─── Configuration validation ───────────────────────────────────

/// Reports whether `path` names something on disk: calls
/// `std::path::Path::exists`. Nothing is promised of the answer, which
/// depends on the file system.
#[verifier::external_body]
pub(crate) fn path_exists(path: &str) -> (r: bool) {
    std::path::Path::new(path).exists()
}

/// Start-up checks of the gateway configuration.
pub struct ConfigValidator;

impl ConfigValidator {
    /// A listening port must not be 0.
    pub fn validate_port(port: u16) -> (r: Result<(), String>)
        ensures
            r is Ok <==> port != 0,
            r matches Err(m) ==> m@ == "Port cannot be 0"@,
    {
        if port == 0 {
            return Err(String::from_str("Port cannot be 0"));
        }
        Ok(())
    }

    /// A URL must be non-empty and start with `http://` or `https://`.
    pub fn validate_url(url: &str) -> (r: Result<(), String>)
        ensures
            r is Ok <==> url@.len() > 0 && (has_prefix(url@, "http://"@) || has_prefix(url@, "https://"@)),
            r matches Err(m) ==> (url@.len() == 0 && m@ == "URL cannot be empty"@) || (url@.len() > 0
                && m@ == "URL must start with http:// or https://: "@ + url@),
    {
        if url.unicode_len() == 0 {
            return Err(String::from_str("URL cannot be empty"));
        }
        if !starts_with(url, "http://") && !starts_with(url, "https://") {
            let mut m = String::from_str("URL must start with http:// or https://: ");
            m.append(url);
            return Err(m);
        }
        Ok(())
    }

    /// A TLS certificate path must exist on disk. Whether it does is asked of
    /// the file system; `tls_cert_status` says what follows from the answer.
    pub fn validate_tls_cert(path: &str) -> (r: Result<(), String>)
        ensures
            r matches Err(m) ==> m@ == "TLS certificate not found: "@ + path@,
    {
        let exists = path_exists(path);
        Self::tls_cert_status(path, exists)
    }

    /// The check of a TLS certificate path, given whether it exists: fine
    /// when it does, else an error naming it.
    pub fn tls_cert_status(path: &str, exists: bool) -> (r: Result<(), String>)
        ensures
            r is Ok <==> exists,
            r matches Err(m) ==> m@ == "TLS certificate not found: "@ + path@,
    {
        if !exists {
            let mut m = String::from_str("TLS certificate not found: ");
            m.append(path);
            return Err(m);
        }
        Ok(())
    }
}

} // verus!
