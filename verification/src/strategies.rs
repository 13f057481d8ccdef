//! Trading strategies for backtests over candle history. Prices are micros
//! (see `decimal`); thresholds given as fractions are parts per million.
use vstd::prelude::*;
use crate::price_index::Candle;
use crate::text::{lowercase, str_eq, to_lowercase};

verus! {

/// What a strategy asks for at one candle.
#[derive(Debug, Clone, Copy, PartialEq, Eq, Structural)]
pub enum Signal {
    /// Buy this many contracts at market.
    Buy(i64),
    /// Sell this many contracts at market.
    Sell(i64),
    /// Do nothing this period.
    Hold,
    /// Close any open position.
    ClosePosition,
}

/// A strategy: looks at the candles up to an index and decides.
pub trait Strategy {
    /// Display name.
    fn name(&self) -> &'static str;

    /// The signal at candle `idx`; only `candles[..=idx]` are looked at.
    fn evaluate(&mut self, candles: &Vec<Candle>, idx: usize) -> Signal
        requires
            idx < candles@.len(),
    ;

    /// Forget any state from a previous run.
    fn reset(&mut self);
}

/// `a` divided by a positive `b`, rounded toward zero.
pub open spec fn div_trunc(a: int, b: int) -> int {
    if a >= 0 { a / b } else { -((-a) / b) }
}

fn div_toward_zero(a: i128, b: i128) -> (q: i128)
    requires
        b > 0,
        a > i128::MIN,
    ensures
        q == div_trunc(a as int, b as int),
        -(if a >= 0 { a as int } else { -a }) <= q <= (if a >= 0 { a as int } else { -a }),
{
    if a >= 0 {
        assert(a / b <= a) by (nonlinear_arith)
            requires
                a >= 0,
                b > 0,
        ;
        a / b
    } else {
        let m: i128 = -a;
        assert(m / b <= m) by (nonlinear_arith)
            requires
                m >= 0,
                b > 0,
        ;
        -(m / b)
    }
}

/// `|a| <= m * b` bounds the quotient by `m`.
proof fn lemma_div_trunc_bound(a: int, b: int, m: int)
    requires
        b > 0,
        m >= 0,
        -(m * b) <= a <= m * b,
    ensures
        -m <= div_trunc(a, b) <= m,
{
    if a >= 0 {
        assert(a / b <= m) by (nonlinear_arith)
            requires
                b > 0,
                0 <= a <= m * b,
        ;
        assert(a / b >= 0) by (nonlinear_arith)
            requires
                b > 0,
                0 <= a,
        ;
    } else {
        assert((-a) / b <= m) by (nonlinear_arith)
            requires
                b > 0,
                0 <= -a <= m * b,
        ;
        assert((-a) / b >= 0) by (nonlinear_arith)
            requires
                b > 0,
                0 <= -a,
        ;
    }
}

// ─── Mean reversion ─────────────────────────────────────────

/// Sum of the closes of some candles.
pub open spec fn closes_sum(cs: Seq<Candle>) -> int
    decreases cs.len(),
{
    if cs.len() == 0 {
        0
    } else {
        closes_sum(cs.drop_last()) + cs.last().close
    }
}

/// Buys when the price drops a threshold below its moving average and sells
/// when it rises a threshold above it.
pub struct MeanReversionStrategy {
    window: usize,
    buy_threshold_ppm: i64,
    sell_threshold_ppm: i64,
    position_size: i64,
}

/// The mean-reversion signal at `idx`: hold until a full window is there;
/// then compare the close with the window's average (rounded toward zero)
/// scaled down by the buy threshold or up by the sell threshold.
pub open spec fn mean_reversion_signal(
    window: int,
    buy_ppm: int,
    sell_ppm: int,
    size: i64,
    cs: Seq<Candle>,
    idx: int,
) -> Signal {
    if idx < window || window == 0 {
        Signal::Hold
    } else {
        let sma = div_trunc(closes_sum(cs.subrange(idx + 1 - window, idx + 1)), window);
        let lower = div_trunc(sma * (1_000_000 - buy_ppm), 1_000_000);
        let upper = div_trunc(sma * (1_000_000 + sell_ppm), 1_000_000);
        let price = cs[idx].close as int;
        if price < lower {
            Signal::Buy(size)
        } else if price > upper {
            Signal::Sell(size)
        } else {
            Signal::Hold
        }
    }
}

impl MeanReversionStrategy {
    /// Its settings: window, buy and sell thresholds, position size.
    pub closed spec fn settings(&self) -> (int, int, int, i64) {
        (self.window as int, self.buy_threshold_ppm as int, self.sell_threshold_ppm as int, self.position_size)
    }

    pub fn new(window: usize, buy_threshold_ppm: i64, sell_threshold_ppm: i64, position_size: i64) -> (s: Self)
        ensures
            s.settings() == (window as int, buy_threshold_ppm as int, sell_threshold_ppm as int, position_size),
    {
        MeanReversionStrategy { window, buy_threshold_ppm, sell_threshold_ppm, position_size }
    }
}

impl Strategy for MeanReversionStrategy {
    fn name(&self) -> (r: &'static str)
        ensures
            r@ == "MeanReversion"@,
    {
        "MeanReversion"
    }

    fn evaluate(&mut self, candles: &Vec<Candle>, idx: usize) -> (r: Signal)
        ensures
            r == mean_reversion_signal(
                old(self).settings().0,
                old(self).settings().1,
                old(self).settings().2,
                old(self).settings().3,
                candles@,
                idx as int,
            ),
            final(self).settings() == old(self).settings(),
    {
        if idx < self.window || self.window == 0 {
            return Signal::Hold;
        }
        let n = candles.len();
        assert(candles@.len() == n);
        let start = idx + 1 - self.window;
        let mut sum: i128 = 0;
        let mut k: usize = start;
        while k <= idx
            invariant
                start <= k <= idx + 1,
                idx < candles@.len(),
                candles@.len() <= usize::MAX,
                sum == closes_sum(candles@.subrange(start as int, k as int)),
                -((k - start) as int) * 0x8000_0000_0000_0000 <= sum <= ((k - start) as int) * 0x8000_0000_0000_0000,
            decreases idx + 1 - k,
        {
            let ghost s = candles@.subrange(start as int, k as int + 1);
            assert(s.drop_last() =~= candles@.subrange(start as int, k as int));
            sum = sum + candles[k].close as i128;
            k = k + 1;
        }
        let w: i128 = self.window as i128;
        let sma: i128 = div_toward_zero(sum, w);
        proof {
            lemma_div_trunc_bound(sum as int, w as int, 0x8000_0000_0000_0000);
        }
        let buy: i128 = 1_000_000 - self.buy_threshold_ppm as i128;
        let sell: i128 = 1_000_000 + self.sell_threshold_ppm as i128;
        proof {
            assert(-0x8000_0000_0000_0000 * 0x8000_0000_0010_0000 <= sma * buy <= 0x8000_0000_0000_0000 * 0x8000_0000_0010_0000)
                by (nonlinear_arith)
                requires
                    -0x8000_0000_0000_0000 <= sma <= 0x8000_0000_0000_0000,
                    -0x8000_0000_0010_0000 <= buy <= 0x8000_0000_0010_0000,
            ;
            assert(-0x8000_0000_0000_0000 * 0x8000_0000_0010_0000 <= sma * sell <= 0x8000_0000_0000_0000 * 0x8000_0000_0010_0000)
                by (nonlinear_arith)
                requires
                    -0x8000_0000_0000_0000 <= sma <= 0x8000_0000_0000_0000,
                    -0x8000_0000_0010_0000 <= sell <= 0x8000_0000_0010_0000,
            ;
        }
        let lower = div_toward_zero(sma * buy, 1_000_000);
        let upper = div_toward_zero(sma * sell, 1_000_000);
        let price: i128 = candles[idx].close as i128;
        if price < lower {
            Signal::Buy(self.position_size)
        } else if price > upper {
            Signal::Sell(self.position_size)
        } else {
            Signal::Hold
        }
    }

    fn reset(&mut self)
        ensures
            final(self).settings() == old(self).settings(),
    {
    }
}

// ─── Momentum ───────────────────────────────────────────────

/// Highest high of some candles, never below zero.
pub open spec fn highest_high(cs: Seq<Candle>) -> int
    decreases cs.len(),
{
    if cs.len() == 0 {
        0
    } else {
        let m = highest_high(cs.drop_last());
        if cs.last().high > m { cs.last().high as int } else { m }
    }
}

/// Lowest low of some candles; above every price when there are none.
pub open spec fn lowest_low(cs: Seq<Candle>) -> int
    decreases cs.len(),
{
    if cs.len() == 0 {
        i64::MAX + 1
    } else {
        let m = lowest_low(cs.drop_last());
        if cs.last().low < m { cs.last().low as int } else { m }
    }
}

/// Buys on a breakout above the high of the last `lookback` candles and
/// closes on a breakdown below their low.
pub struct MomentumStrategy {
    lookback: usize,
    position_size: i64,
    in_position: bool,
}

/// The momentum signal at `idx` and whether a position is held afterwards.
pub open spec fn momentum_step(lookback: int, size: i64, holding: bool, cs: Seq<Candle>, idx: int) -> (Signal, bool) {
    if idx < lookback {
        (Signal::Hold, holding)
    } else {
        let w = cs.subrange(idx - lookback, idx);
        let price = cs[idx].close as int;
        if !holding && price > highest_high(w) {
            (Signal::Buy(size), true)
        } else if holding && price < lowest_low(w) {
            (Signal::ClosePosition, false)
        } else {
            (Signal::Hold, holding)
        }
    }
}

impl MomentumStrategy {
    /// Lookback and position size.
    pub closed spec fn settings(&self) -> (int, i64) {
        (self.lookback as int, self.position_size)
    }

    /// A position is open.
    pub closed spec fn holding(&self) -> bool {
        self.in_position
    }

    /// A momentum strategy with no open position.
    pub fn new(lookback: usize, position_size: i64) -> (s: Self)
        ensures
            s.settings() == (lookback as int, position_size),
            !s.holding(),
    {
        MomentumStrategy { lookback, position_size, in_position: false }
    }
}

impl Strategy for MomentumStrategy {
    fn name(&self) -> (r: &'static str)
        ensures
            r@ == "Momentum"@,
    {
        "Momentum"
    }

    fn evaluate(&mut self, candles: &Vec<Candle>, idx: usize) -> (r: Signal)
        ensures
            (r, final(self).holding()) == momentum_step(
                old(self).settings().0,
                old(self).settings().1,
                old(self).holding(),
                candles@,
                idx as int,
            ),
            final(self).settings() == old(self).settings(),
    {
        if idx < self.lookback {
            return Signal::Hold;
        }
        let start = idx - self.lookback;
        let mut high: i64 = 0;
        let mut low: i128 = 0x8000_0000_0000_0000;
        let mut k: usize = start;
        while k < idx
            invariant
                start <= k <= idx,
                idx < candles@.len(),
                high == highest_high(candles@.subrange(start as int, k as int)),
                low == lowest_low(candles@.subrange(start as int, k as int)),
            decreases idx - k,
        {
            let ghost s = candles@.subrange(start as int, k as int + 1);
            assert(s.drop_last() =~= candles@.subrange(start as int, k as int));
            if candles[k].high > high {
                high = candles[k].high;
            }
            if (candles[k].low as i128) < low {
                low = candles[k].low as i128;
            }
            k = k + 1;
        }
        let price = candles[idx].close;
        if !self.in_position && price > high {
            self.in_position = true;
            Signal::Buy(self.position_size)
        } else if self.in_position && (price as i128) < low {
            self.in_position = false;
            Signal::ClosePosition
        } else {
            Signal::Hold
        }
    }

    fn reset(&mut self)
        ensures
            !final(self).holding(),
            final(self).settings() == old(self).settings(),
    {
        self.in_position = false;
    }
}

// ─── Threshold band ─────────────────────────────────────────

/// Buys below a lower price and closes above an upper one.
pub struct ThresholdBandStrategy {
    lower: i64,
    upper: i64,
    position_size: i64,
    in_position: bool,
}

/// The band signal at `idx` and whether a position is held afterwards.
pub open spec fn band_step(lower: i64, upper: i64, size: i64, holding: bool, cs: Seq<Candle>, idx: int) -> (Signal, bool) {
    let price = cs[idx].close;
    if !holding && price < lower {
        (Signal::Buy(size), true)
    } else if holding && price > upper {
        (Signal::ClosePosition, false)
    } else {
        (Signal::Hold, holding)
    }
}

impl ThresholdBandStrategy {
    /// Lower and upper prices and position size.
    pub closed spec fn settings(&self) -> (i64, i64, i64) {
        (self.lower, self.upper, self.position_size)
    }

    /// A position is open.
    pub closed spec fn holding(&self) -> bool {
        self.in_position
    }

    /// A band strategy with no open position.
    pub fn new(lower: i64, upper: i64, position_size: i64) -> (s: Self)
        ensures
            s.settings() == (lower, upper, position_size),
            !s.holding(),
    {
        ThresholdBandStrategy { lower, upper, position_size, in_position: false }
    }
}

impl Strategy for ThresholdBandStrategy {
    fn name(&self) -> (r: &'static str)
        ensures
            r@ == "ThresholdBand"@,
    {
        "ThresholdBand"
    }

    fn evaluate(&mut self, candles: &Vec<Candle>, idx: usize) -> (r: Signal)
        ensures
            (r, final(self).holding()) == band_step(
                old(self).settings().0,
                old(self).settings().1,
                old(self).settings().2,
                old(self).holding(),
                candles@,
                idx as int,
            ),
            final(self).settings() == old(self).settings(),
    {
        let price = candles[idx].close;
        if !self.in_position && price < self.lower {
            self.in_position = true;
            Signal::Buy(self.position_size)
        } else if self.in_position && price > self.upper {
            self.in_position = false;
            Signal::ClosePosition
        } else {
            Signal::Hold
        }
    }

    fn reset(&mut self)
        ensures
            !final(self).holding(),
            final(self).settings() == old(self).settings(),
    {
        self.in_position = false;
    }
}

// ─── Breakout ───────────────────────────────────────────────

/// Buys when the close clears the high of the last `lookback` candles by
/// more than a threshold, and closes when it falls below their low by more
/// than the threshold (parts per million).
pub struct BreakoutStrategy {
    lookback: usize,
    threshold_ppm: i64,
    position_size: i64,
    in_position: bool,
}

/// The breakout signal at `idx` and whether a position is held afterwards.
pub open spec fn breakout_step(lookback: int, threshold_ppm: int, size: i64, holding: bool, cs: Seq<Candle>, idx: int) -> (
    Signal,
    bool,
) {
    if idx < lookback {
        (Signal::Hold, holding)
    } else {
        let w = cs.subrange(idx - lookback, idx);
        let price = cs[idx].close as int;
        if !holding && price * 1_000_000 > highest_high(w) * (1_000_000 + threshold_ppm) {
            (Signal::Buy(size), true)
        } else if holding && price * 1_000_000 < lowest_low(w) * (1_000_000 - threshold_ppm) {
            (Signal::ClosePosition, false)
        } else {
            (Signal::Hold, holding)
        }
    }
}

impl BreakoutStrategy {
    /// Lookback, threshold and position size.
    pub closed spec fn settings(&self) -> (int, int, i64) {
        (self.lookback as int, self.threshold_ppm as int, self.position_size)
    }

    /// A position is open.
    pub closed spec fn holding(&self) -> bool {
        self.in_position
    }

    /// A breakout strategy with no open position.
    pub fn new(lookback: usize, threshold_ppm: i64, position_size: i64) -> (s: Self)
        ensures
            s.settings() == (lookback as int, threshold_ppm as int, position_size),
            !s.holding(),
    {
        BreakoutStrategy { lookback, threshold_ppm, position_size, in_position: false }
    }
}

impl Strategy for BreakoutStrategy {
    fn name(&self) -> (r: &'static str)
        ensures
            r@ == "Breakout"@,
    {
        "Breakout"
    }

    fn evaluate(&mut self, candles: &Vec<Candle>, idx: usize) -> (r: Signal)
        ensures
            (r, final(self).holding()) == breakout_step(
                old(self).settings().0,
                old(self).settings().1,
                old(self).settings().2,
                old(self).holding(),
                candles@,
                idx as int,
            ),
            final(self).settings() == old(self).settings(),
    {
        if idx < self.lookback {
            return Signal::Hold;
        }
        let start = idx - self.lookback;
        let mut high: i64 = 0;
        let mut low: i128 = 0x8000_0000_0000_0000;
        let mut k: usize = start;
        while k < idx
            invariant
                start <= k <= idx,
                idx < candles@.len(),
                high == highest_high(candles@.subrange(start as int, k as int)),
                low == lowest_low(candles@.subrange(start as int, k as int)),
                i64::MIN <= low <= 0x8000_0000_0000_0000,
            decreases idx - k,
        {
            let ghost s = candles@.subrange(start as int, k as int + 1);
            assert(s.drop_last() =~= candles@.subrange(start as int, k as int));
            if candles[k].high > high {
                high = candles[k].high;
            }
            if (candles[k].low as i128) < low {
                low = candles[k].low as i128;
            }
            k = k + 1;
        }
        let price = candles[idx].close as i128;
        let t = self.threshold_ppm as i128;
        assert(-0x8000_0000_0000_0000 * 0x8000_0000_0000_0000 * 3 / 2 <= (high as i128) * (1_000_000 + t) <= 0x8000_0000_0000_0000 * 0x8000_0000_0000_0000 * 3 / 2)
            by (nonlinear_arith)
            requires
                i64::MIN <= high <= i64::MAX,
                i64::MIN <= t <= i64::MAX,
        ;
        assert(-0x8000_0000_0000_0000 * 0x8000_0000_0000_0000 * 3 / 2 <= low * (1_000_000 - t) <= 0x8000_0000_0000_0000 * 0x8000_0000_0000_0000 * 3 / 2)
            by (nonlinear_arith)
            requires
                i64::MIN <= low <= 0x8000_0000_0000_0000,
                i64::MIN <= t <= i64::MAX,
        ;
        if !self.in_position && price * 1_000_000 > (high as i128) * (1_000_000 + t) {
            self.in_position = true;
            Signal::Buy(self.position_size)
        } else if self.in_position && price * 1_000_000 < low * (1_000_000 - t) {
            self.in_position = false;
            Signal::ClosePosition
        } else {
            Signal::Hold
        }
    }

    fn reset(&mut self)
        ensures
            !final(self).holding(),
            final(self).settings() == old(self).settings(),
    {
        self.in_position = false;
    }
}

// ─── MACD ───────────────────────────────────────────────────

/// One step of an exponential moving average over `n` periods: the average
/// moves by `2 / (n + 1)` of the gap to the new value, rounded toward zero.
pub open spec fn ema_next(e: int, v: int, n: int) -> int {
    e + div_trunc(2 * (v - e), n + 1)
}

/// Fast average, slow average and signal line after candle `k`, every
/// average starting at the first close (so the signal line starts at zero).
pub open spec fn macd_lines(cs: Seq<Candle>, fast: int, slow: int, signal: int, k: int) -> (int, int, int)
    decreases k,
{
    if k <= 0 {
        (cs[0].close as int, cs[0].close as int, 0)
    } else {
        let prev = macd_lines(cs, fast, slow, signal, k - 1);
        let p = cs[k].close as int;
        let f = ema_next(prev.0, p, fast);
        let s = ema_next(prev.1, p, slow);
        (f, s, ema_next(prev.2, f - s, signal))
    }
}

/// MACD line minus signal line after candle `k`.
pub open spec fn macd_histogram(cs: Seq<Candle>, fast: int, slow: int, signal: int, k: int) -> int {
    let l = macd_lines(cs, fast, slow, signal, k);
    l.0 - l.1 - l.2
}

/// The MACD signal at `idx` and whether a position is held afterwards: once
/// the slow average has had `slow` candles, buy when the MACD line crosses
/// above its signal line and close when it crosses below.
pub open spec fn macd_step(fast: int, slow: int, signal: int, size: i64, holding: bool, cs: Seq<Candle>, idx: int) -> (
    Signal,
    bool,
) {
    if idx < slow || idx == 0 {
        (Signal::Hold, holding)
    } else {
        let before = macd_histogram(cs, fast, slow, signal, idx - 1);
        let now = macd_histogram(cs, fast, slow, signal, idx);
        if !holding && before <= 0 && now > 0 {
            (Signal::Buy(size), true)
        } else if holding && before >= 0 && now < 0 {
            (Signal::ClosePosition, false)
        } else {
            (Signal::Hold, holding)
        }
    }
}

/// An average step moves toward the new value and never past it: it lands
/// between the old average and the new value.
pub proof fn lemma_ema_between(e: int, v: int, n: int)
    requires
        n >= 1,
    ensures
        e <= v ==> e <= ema_next(e, v, n) <= v,
        v <= e ==> v <= ema_next(e, v, n) <= e,
{
    let d = v - e;
    if d >= 0 {
        assert(0 <= (2 * d) / (n + 1) <= d) by (nonlinear_arith)
            requires
                d >= 0,
                n >= 1,
        ;
    } else {
        assert(0 <= (-2 * d) / (n + 1) <= -d) by (nonlinear_arith)
            requires
                d < 0,
                n >= 1,
        ;
    }
}

/// The averages stay within the range of closes and the signal line within
/// twice that.
proof fn lemma_macd_lines_bounded(cs: Seq<Candle>, fast: int, slow: int, signal: int, k: int)
    requires
        fast >= 1,
        slow >= 1,
        signal >= 1,
        0 <= k < cs.len(),
    ensures
        i64::MIN <= macd_lines(cs, fast, slow, signal, k).0 <= i64::MAX,
        i64::MIN <= macd_lines(cs, fast, slow, signal, k).1 <= i64::MAX,
        -0x1_0000_0000_0000_0000 <= macd_lines(cs, fast, slow, signal, k).2 <= 0x1_0000_0000_0000_0000,
    decreases k,
{
    if k > 0 {
        lemma_macd_lines_bounded(cs, fast, slow, signal, k - 1);
        let prev = macd_lines(cs, fast, slow, signal, k - 1);
        let p = cs[k].close as int;
        lemma_ema_between(prev.0, p, fast);
        lemma_ema_between(prev.1, p, slow);
        let f = ema_next(prev.0, p, fast);
        let s = ema_next(prev.1, p, slow);
        lemma_ema_between(prev.2, f - s, signal);
    }
}

/// Moving-average convergence/divergence crossovers (periods of at least 1).
pub struct MacdStrategy {
    fast: usize,
    slow: usize,
    signal: usize,
    position_size: i64,
    in_position: bool,
}

/// One average step, computed.
fn ema_step(e: i128, v: i128, n: usize) -> (r: i128)
    requires
        n >= 1,
        -0x2_0000_0000_0000_0000 <= e <= 0x2_0000_0000_0000_0000,
        -0x2_0000_0000_0000_0000 <= v <= 0x2_0000_0000_0000_0000,
    ensures
        r == ema_next(e as int, v as int, n as int),
{
    let q = div_toward_zero(2 * (v - e), n as i128 + 1);
    e + q
}

impl MacdStrategy {
    #[verifier::type_invariant]
    spec fn periods_positive(self) -> bool {
        self.fast >= 1 && self.slow >= 1 && self.signal >= 1
    }

    /// Fast, slow and signal periods, and position size.
    pub closed spec fn settings(&self) -> (int, int, int, i64) {
        (self.fast as int, self.slow as int, self.signal as int, self.position_size)
    }

    /// A position is open.
    pub closed spec fn holding(&self) -> bool {
        self.in_position
    }

    /// A MACD strategy with no open position; a period of 0 counts as 1.
    pub fn new(fast: usize, slow: usize, signal: usize, position_size: i64) -> (s: Self)
        ensures
            s.settings() == (
                if fast == 0 { 1int } else { fast as int },
                if slow == 0 { 1int } else { slow as int },
                if signal == 0 { 1int } else { signal as int },
                position_size,
            ),
            !s.holding(),
    {
        MacdStrategy {
            fast: if fast == 0 { 1 } else { fast },
            slow: if slow == 0 { 1 } else { slow },
            signal: if signal == 0 { 1 } else { signal },
            position_size,
            in_position: false,
        }
    }

    /// The histogram after candles `idx - 1` and `idx`.
    fn histograms(&self, candles: &Vec<Candle>, idx: usize) -> (r: (i128, i128))
        requires
            1 <= idx < candles@.len(),
            self.settings().0 >= 1,
            self.settings().1 >= 1,
            self.settings().2 >= 1,
        ensures
            r.0 == macd_histogram(candles@, self.settings().0, self.settings().1, self.settings().2, idx - 1),
            r.1 == macd_histogram(candles@, self.settings().0, self.settings().1, self.settings().2, idx as int),
    {
        let ghost (fa, sl, sg) = (self.fast as int, self.slow as int, self.signal as int);
        let first = candles[0].close as i128;
        let mut f: i128 = first;
        let mut s: i128 = first;
        let mut g: i128 = 0;
        let mut before: i128 = 0;
        let mut k: usize = 0;
        while k < idx
            invariant
                k <= idx < candles@.len(),
                fa == self.fast,
                sl == self.slow,
                sg == self.signal,
                fa >= 1 && sl >= 1 && sg >= 1,
                (f as int, s as int, g as int) == macd_lines(candles@, fa, sl, sg, k as int),
                k >= 1 ==> before == macd_histogram(candles@, fa, sl, sg, k - 1),
            decreases idx - k,
        {
            proof { lemma_macd_lines_bounded(candles@, fa, sl, sg, k as int); }
            before = f - s - g;
            let p = candles[k + 1].close as i128;
            f = ema_step(f, p, self.fast);
            s = ema_step(s, p, self.slow);
            proof { lemma_macd_lines_bounded(candles@, fa, sl, sg, k + 1); }
            g = ema_step(g, f - s, self.signal);
            k = k + 1;
        }
        proof { lemma_macd_lines_bounded(candles@, fa, sl, sg, idx as int); }
        (before, f - s - g)
    }
}

impl Strategy for MacdStrategy {
    fn name(&self) -> (r: &'static str)
        ensures
            r@ == "MACD"@,
    {
        "MACD"
    }

    fn evaluate(&mut self, candles: &Vec<Candle>, idx: usize) -> (r: Signal)
        ensures
            (r, final(self).holding()) == macd_step(
                old(self).settings().0,
                old(self).settings().1,
                old(self).settings().2,
                old(self).settings().3,
                old(self).holding(),
                candles@,
                idx as int,
            ),
            final(self).settings() == old(self).settings(),
    {
        proof { use_type_invariant(&*self); }
        if idx < self.slow || idx == 0 {
            return Signal::Hold;
        }
        let (before, now) = self.histograms(candles, idx);
        if !self.in_position && before <= 0 && now > 0 {
            *self = MacdStrategy { in_position: true, ..*self };
            Signal::Buy(self.position_size)
        } else if self.in_position && before >= 0 && now < 0 {
            *self = MacdStrategy { in_position: false, ..*self };
            Signal::ClosePosition
        } else {
            Signal::Hold
        }
    }

    fn reset(&mut self)
        ensures
            !final(self).holding(),
            final(self).settings() == old(self).settings(),
    {
        proof { use_type_invariant(&*self); }
        *self = MacdStrategy { in_position: false, ..*self };
    }
}

// ─── Laws ───────────────────────────────────────────────────

/// A step opens a position only when none is held, closes one only when one
/// is held, and leaves the position alone when it holds.
pub open spec fn position_consistent(holding: bool, step: (Signal, bool)) -> bool {
    &&& step.0 is Buy ==> !holding && step.1
    &&& step.0 is ClosePosition ==> holding && !step.1
    &&& step.0 is Hold ==> step.1 == holding
}

/// The position-keeping strategies (momentum, threshold band, breakout and
/// MACD) never buy into an open position, never close a position they do
/// not hold, and keep the position across a hold.
pub proof fn law_entries_and_exits_alternate(
    lookback: int,
    threshold_ppm: int,
    lower: i64,
    upper: i64,
    fast: int,
    slow: int,
    signal: int,
    size: i64,
    holding: bool,
    cs: Seq<Candle>,
    idx: int,
)
    ensures
        position_consistent(holding, momentum_step(lookback, size, holding, cs, idx)),
        position_consistent(holding, band_step(lower, upper, size, holding, cs, idx)),
        position_consistent(holding, breakout_step(lookback, threshold_ppm, size, holding, cs, idx)),
        position_consistent(holding, macd_step(fast, slow, signal, size, holding, cs, idx)),
{
}

/// The lowest low lies above `c` exactly when every candle's low does.
proof fn lemma_lowest_low_above(w: Seq<Candle>, c: int)
    requires
        c <= i64::MAX,
    ensures
        lowest_low(w) > c <==> forall|k: int| 0 <= k < w.len() ==> c < #[trigger] w[k].low,
    decreases w.len(),
{
    if w.len() > 0 {
        lemma_lowest_low_above(w.drop_last(), c);
        assert forall|k: int| 0 <= k < w.len() - 1 implies #[trigger] w[k].low == w.drop_last()[k].low by {}
    }
}

/// The highest high lies below `c` exactly when `c` is positive and every
/// candle's high lies below it.
proof fn lemma_highest_high_below(w: Seq<Candle>, c: int)
    ensures
        highest_high(w) < c <==> 0 < c && forall|k: int| 0 <= k < w.len() ==> #[trigger] w[k].high < c,
    decreases w.len(),
{
    if w.len() > 0 {
        lemma_highest_high_below(w.drop_last(), c);
        assert forall|k: int| 0 <= k < w.len() - 1 implies #[trigger] w[k].high == w.drop_last()[k].high by {}
    }
}

/// Momentum trades on the candles of the previous `lookback` periods: with
/// no position it buys exactly when the close is positive and above every
/// one of their highs, and holding a position it closes exactly when the
/// close is below every one of their lows; before `lookback` candles have
/// passed it holds.
pub proof fn law_momentum_breaks_out_and_down(lookback: int, size: i64, holding: bool, cs: Seq<Candle>, idx: int)
    requires
        0 <= lookback,
        0 <= idx < cs.len(),
    ensures
        idx < lookback ==> momentum_step(lookback, size, holding, cs, idx) == (Signal::Hold, holding),
        idx >= lookback && !holding ==> (momentum_step(lookback, size, holding, cs, idx).0 is Buy <==> 0
            < cs[idx].close && forall|k: int| idx - lookback <= k < idx ==> #[trigger] cs[k].high < cs[idx].close),
        idx >= lookback && holding ==> (momentum_step(lookback, size, holding, cs, idx).0 is ClosePosition <==> forall|
            k: int,
        | idx - lookback <= k < idx ==> cs[idx].close < #[trigger] cs[k].low),
{
    if idx >= lookback {
        let w = cs.subrange(idx - lookback, idx);
        let c = cs[idx].close as int;
        lemma_lowest_low_above(w, c);
        lemma_highest_high_below(w, c);
        assert forall|k: int| idx - lookback <= k < idx implies #[trigger] cs[k] == w[k - (idx - lookback)] by {}
        assert forall|j: int| 0 <= j < w.len() implies #[trigger] w[j] == cs[j + (idx - lookback)] by {}
    }
}

/// The threshold band buys, with no position, exactly when the close is
/// strictly below the lower price, and closes a held position exactly when
/// the close is strictly above the upper price.
pub proof fn law_band_trades_outside_the_band(lower: i64, upper: i64, size: i64, holding: bool, cs: Seq<Candle>, idx: int)
    requires
        0 <= idx < cs.len(),
    ensures
        !holding ==> (band_step(lower, upper, size, holding, cs, idx).0 is Buy <==> cs[idx].close < lower),
        holding ==> (band_step(lower, upper, size, holding, cs, idx).0 is ClosePosition <==> cs[idx].close > upper),
        band_step(lower, upper, size, holding, cs, idx).0 is Buy ==> band_step(lower, upper, size, holding, cs, idx).0
            == Signal::Buy(size),
{
}

/// `m` times the highest high (never below zero) lies below `c` exactly when
/// `c` is positive and above `m` times every high, for `m >= 0`.
proof fn lemma_scaled_high_below(w: Seq<Candle>, m: int, c: int)
    requires
        m >= 0,
    ensures
        highest_high(w) * m < c <==> 0 < c && forall|k: int| 0 <= k < w.len() ==> #[trigger] w[k].high * m < c,
    decreases w.len(),
{
    if w.len() > 0 {
        lemma_scaled_high_below(w.drop_last(), m, c);
        assert forall|k: int| 0 <= k < w.len() - 1 implies #[trigger] w[k].high == w.drop_last()[k].high by {}
        let h = highest_high(w.drop_last());
        let x = w.last().high as int;
        assert(x > h ==> x * m >= h * m) by (nonlinear_arith)
            requires
                m >= 0,
        ;
        assert(x <= h ==> x * m <= h * m) by (nonlinear_arith)
            requires
                m >= 0,
        ;
    }
}

/// `m` times the lowest low lies above `c` exactly when `m` times every low
/// does, for `m >= 0` and at least one candle.
proof fn lemma_scaled_low_above(w: Seq<Candle>, m: int, c: int)
    requires
        m >= 0,
        w.len() >= 1,
    ensures
        lowest_low(w) * m > c <==> forall|k: int| 0 <= k < w.len() ==> #[trigger] w[k].low * m > c,
    decreases w.len(),
{
    let x = w.last().low as int;
    if w.len() == 1 {
        assert(lowest_low(w.drop_last()) == i64::MAX + 1);
        assert(lowest_low(w) == x);
    } else {
        lemma_scaled_low_above(w.drop_last(), m, c);
        assert forall|k: int| 0 <= k < w.len() - 1 implies #[trigger] w[k].low == w.drop_last()[k].low by {}
        let l = lowest_low(w.drop_last());
        assert(x < l ==> x * m <= l * m) by (nonlinear_arith)
            requires
                m >= 0,
        ;
        assert(x >= l ==> x * m >= l * m) by (nonlinear_arith)
            requires
                m >= 0,
        ;
    }
}

/// Breakout trades on the candles of the previous `lookback` periods and a
/// margin `t` in parts per million (between -100% and +100%): with no
/// position it buys exactly when the close is positive and clears every one
/// of their highs by the margin, and holding a position it closes exactly
/// when the close falls below every one of their lows by the margin.
pub proof fn law_breakout_clears_the_channel(lookback: int, t: int, size: i64, holding: bool, cs: Seq<Candle>, idx: int)
    requires
        1 <= lookback <= idx < cs.len(),
        -1_000_000 <= t <= 1_000_000,
    ensures
        !holding ==> (breakout_step(lookback, t, size, holding, cs, idx).0 is Buy <==> 0 < cs[idx].close && forall|
            k: int,
        | idx - lookback <= k < idx ==> #[trigger] cs[k].high * (1_000_000 + t) < cs[idx].close * 1_000_000),
        holding ==> (breakout_step(lookback, t, size, holding, cs, idx).0 is ClosePosition <==> forall|k: int|
            idx - lookback <= k < idx ==> cs[idx].close * 1_000_000 < #[trigger] cs[k].low * (1_000_000 - t)),
{
    let w = cs.subrange(idx - lookback, idx);
    let c = cs[idx].close as int * 1_000_000;
    lemma_scaled_high_below(w, 1_000_000 + t, c);
    lemma_scaled_low_above(w, 1_000_000 - t, c);
    assert(0 < c <==> 0 < cs[idx].close);
    assert forall|k: int| idx - lookback <= k < idx implies #[trigger] cs[k] == w[k - (idx - lookback)] by {}
    assert forall|j: int| 0 <= j < w.len() implies #[trigger] w[j] == cs[j + (idx - lookback)] by {}
    assert(highest_high(w) * (1_000_000 + t) == (1_000_000 + t) * highest_high(w)) by (nonlinear_arith);
    assert(lowest_low(w) * (1_000_000 - t) == (1_000_000 - t) * lowest_low(w)) by (nonlinear_arith);
}

proof fn lemma_closes_sum_same_closes(a: Seq<Candle>, b: Seq<Candle>)
    requires
        a.len() == b.len(),
        forall|k: int| 0 <= k < a.len() ==> #[trigger] a[k].close == b[k].close,
    ensures
        closes_sum(a) == closes_sum(b),
    decreases a.len(),
{
    if a.len() > 0 {
        assert forall|k: int| 0 <= k < a.len() - 1 implies #[trigger] a.drop_last()[k].close == b.drop_last()[k].close by {
            assert(a.drop_last()[k] == a[k] && b.drop_last()[k] == b[k]);
        }
        lemma_closes_sum_same_closes(a.drop_last(), b.drop_last());
    }
}

proof fn lemma_closes_sum_nonneg(a: Seq<Candle>)
    requires
        forall|k: int| 0 <= k < a.len() ==> 0 <= #[trigger] a[k].close,
    ensures
        closes_sum(a) >= 0,
    decreases a.len(),
{
    if a.len() > 0 {
        assert forall|k: int| 0 <= k < a.len() - 1 implies 0 <= #[trigger] a.drop_last()[k].close by {
            assert(a.drop_last()[k] == a[k]);
        }
        lemma_closes_sum_nonneg(a.drop_last());
    }
}

/// Mean reversion looks only at the closes of the last `window` candles up
/// to and including `idx`: two histories that agree there get the same
/// signal.
pub proof fn law_mean_reversion_uses_its_window(
    window: int,
    buy_ppm: int,
    sell_ppm: int,
    size: i64,
    cs1: Seq<Candle>,
    cs2: Seq<Candle>,
    idx: int,
)
    requires
        0 <= window,
        0 <= idx < cs1.len(),
        idx < cs2.len(),
        forall|k: int| idx + 1 - window <= k <= idx && 0 <= k ==> #[trigger] cs1[k].close == cs2[k].close,
    ensures
        mean_reversion_signal(window, buy_ppm, sell_ppm, size, cs1, idx) == mean_reversion_signal(
            window,
            buy_ppm,
            sell_ppm,
            size,
            cs2,
            idx,
        ),
{
    if !(idx < window || window == 0) {
        let a = cs1.subrange(idx + 1 - window, idx + 1);
        let b = cs2.subrange(idx + 1 - window, idx + 1);
        assert forall|k: int| 0 <= k < a.len() implies #[trigger] a[k].close == b[k].close by {
            assert(a[k] == cs1[k + idx + 1 - window] && b[k] == cs2[k + idx + 1 - window]);
        }
        lemma_closes_sum_same_closes(a, b);
        assert(cs1[idx].close == cs2[idx].close);
    }
}

/// With non-negative prices, a buy threshold of at most 100% and a
/// non-negative sell threshold, mean reversion buys only below the window's
/// average close and sells only above it, always the configured size.
pub proof fn law_mean_reversion_trades_against_the_average(
    window: int,
    buy_ppm: int,
    sell_ppm: int,
    size: i64,
    cs: Seq<Candle>,
    idx: int,
)
    requires
        1 <= window <= idx + 1,
        idx < cs.len(),
        0 <= buy_ppm <= 1_000_000,
        0 <= sell_ppm,
        forall|k: int| idx + 1 - window <= k <= idx ==> 0 <= #[trigger] cs[k].close,
    ensures
        mean_reversion_signal(window, buy_ppm, sell_ppm, size, cs, idx) is Buy ==> cs[idx].close * window < closes_sum(
            cs.subrange(idx + 1 - window, idx + 1),
        ) && mean_reversion_signal(window, buy_ppm, sell_ppm, size, cs, idx) == Signal::Buy(size),
        mean_reversion_signal(window, buy_ppm, sell_ppm, size, cs, idx) is Sell ==> cs[idx].close * window > closes_sum(
            cs.subrange(idx + 1 - window, idx + 1),
        ) && mean_reversion_signal(window, buy_ppm, sell_ppm, size, cs, idx) == Signal::Sell(size),
{
    if idx >= window {
        let w = cs.subrange(idx + 1 - window, idx + 1);
        assert forall|k: int| 0 <= k < w.len() implies 0 <= #[trigger] w[k].close by {
            assert(w[k] == cs[k + idx + 1 - window]);
        }
        lemma_closes_sum_nonneg(w);
        let sum = closes_sum(w);
        let sma = sum / window;
        assert(div_trunc(sum, window) == sma);
        let p = cs[idx].close as int;
        let lower = div_trunc(sma * (1_000_000 - buy_ppm), 1_000_000);
        let upper = div_trunc(sma * (1_000_000 + sell_ppm), 1_000_000);
        assert(sma >= 0 && sma * window <= sum && sum < (sma + 1) * window) by (nonlinear_arith)
            requires
                sum >= 0,
                window >= 1,
                sma == sum / window,
        ;
        assert(lower == (sma * (1_000_000 - buy_ppm)) / 1_000_000 && lower <= sma) by (nonlinear_arith)
            requires
                sma >= 0,
                0 <= buy_ppm <= 1_000_000,
                lower == div_trunc(sma * (1_000_000 - buy_ppm), 1_000_000),
        ;
        assert(upper >= sma) by (nonlinear_arith)
            requires
                sma >= 0,
                sell_ppm >= 0,
                upper == div_trunc(sma * (1_000_000 + sell_ppm), 1_000_000),
        ;
        assert(p < sma ==> p * window < sum) by (nonlinear_arith)
            requires
                sma * window <= sum,
                window >= 1,
        ;
        assert(p > sma ==> p * window > sum) by (nonlinear_arith)
            requires
                sum < (sma + 1) * window,
                window >= 1,
        ;
    }
}

proof fn lemma_macd_lines_constant(cs: Seq<Candle>, fast: int, slow: int, signal: int, k: int)
    requires
        fast >= 1 && slow >= 1 && signal >= 1,
        0 <= k < cs.len(),
        forall|j: int| 0 <= j <= k ==> #[trigger] cs[j].close == cs[0].close,
    ensures
        macd_lines(cs, fast, slow, signal, k) == (cs[0].close as int, cs[0].close as int, 0int),
    decreases k,
{
    if k > 0 {
        lemma_macd_lines_constant(cs, fast, slow, signal, k - 1);
        assert(cs[k].close == cs[0].close);
        assert(div_trunc(0, fast + 1) == 0 && div_trunc(0, slow + 1) == 0 && div_trunc(0, signal + 1) == 0);
    }
}

/// MACD never trades while the closes have not moved: on a flat history
/// both averages sit at the price and the signal line at zero.
pub proof fn law_macd_flat_history_holds(
    fast: int,
    slow: int,
    signal: int,
    size: i64,
    holding: bool,
    cs: Seq<Candle>,
    idx: int,
)
    requires
        fast >= 1 && slow >= 1 && signal >= 1,
        0 <= idx < cs.len(),
        forall|j: int| 0 <= j <= idx ==> #[trigger] cs[j].close == cs[0].close,
    ensures
        macd_step(fast, slow, signal, size, holding, cs, idx) == (Signal::Hold, holding),
{
    if idx >= 1 {
        lemma_macd_lines_constant(cs, fast, slow, signal, idx);
        lemma_macd_lines_constant(cs, fast, slow, signal, idx - 1);
    }
}

// ─── Arbitrage replay ───────────────────────────────────────

/// Replays a second market beside the first: buys the first when it is the
/// cheaper one by more than a spread threshold, closes once the spread has
/// shrunk below three tenths of it.
pub struct ArbitrageReplayStrategy {
    comparison_candles: Vec<Candle>,
    spread_threshold: i64,
    position_size: i64,
    in_position: bool,
}

/// The replay signal at `idx` and whether a position is held afterwards.
pub open spec fn replay_step(
    other: Seq<Candle>,
    threshold: int,
    size: i64,
    holding: bool,
    cs: Seq<Candle>,
    idx: int,
) -> (Signal, bool) {
    if idx >= other.len() {
        (Signal::Hold, holding)
    } else {
        let a = cs[idx].close as int;
        let b = other[idx].close as int;
        let spread = if a >= b { a - b } else { b - a };
        if !holding && spread > threshold {
            (if a < b { Signal::Buy(size) } else { Signal::Hold }, true)
        } else if holding && spread * 10 < threshold * 3 {
            (Signal::ClosePosition, false)
        } else {
            (Signal::Hold, holding)
        }
    }
}

impl ArbitrageReplayStrategy {
    /// Compared candles, spread threshold and position size.
    pub closed spec fn settings(&self) -> (Seq<Candle>, int, i64) {
        (self.comparison_candles@, self.spread_threshold as int, self.position_size)
    }

    /// A position is open.
    pub closed spec fn holding(&self) -> bool {
        self.in_position
    }

    pub fn new(comparison_candles: Vec<Candle>, spread_threshold: i64, position_size: i64) -> (s: Self)
        ensures
            s.settings() == (comparison_candles@, spread_threshold as int, position_size),
            !s.holding(),
    {
        ArbitrageReplayStrategy { comparison_candles, spread_threshold, position_size, in_position: false }
    }
}

impl Strategy for ArbitrageReplayStrategy {
    fn name(&self) -> (r: &'static str)
        ensures
            r@ == "ArbitrageReplay"@,
    {
        "ArbitrageReplay"
    }

    fn evaluate(&mut self, candles: &Vec<Candle>, idx: usize) -> (r: Signal)
        ensures
            (r, final(self).holding()) == replay_step(
                old(self).settings().0,
                old(self).settings().1,
                old(self).settings().2,
                old(self).holding(),
                candles@,
                idx as int,
            ),
            final(self).settings() == old(self).settings(),
    {
        if idx >= self.comparison_candles.len() {
            return Signal::Hold;
        }
        let a: i128 = candles[idx].close as i128;
        let b: i128 = self.comparison_candles[idx].close as i128;
        let spread: i128 = if a >= b { a - b } else { b - a };
        let threshold: i128 = self.spread_threshold as i128;
        if !self.in_position && spread > threshold {
            self.in_position = true;
            if a < b {
                Signal::Buy(self.position_size)
            } else {
                Signal::Hold
            }
        } else if self.in_position && spread * 10 < threshold * 3 {
            self.in_position = false;
            Signal::ClosePosition
        } else {
            Signal::Hold
        }
    }

    fn reset(&mut self)
        ensures
            !final(self).holding(),
            final(self).settings() == old(self).settings(),
    {
        self.in_position = false;
    }
}

// ─── Factory ────────────────────────────────────────────────

/// Settings a strategy may be created with; unset ones take their defaults.
#[derive(Debug, Clone, Copy, Default)]
pub struct StrategyParams {
    pub window: Option<usize>,
    pub buy_threshold_ppm: Option<i64>,
    pub sell_threshold_ppm: Option<i64>,
    pub position_size: Option<i64>,
    pub lookback: Option<usize>,
    pub lower: Option<i64>,
    pub upper: Option<i64>,
    pub threshold_ppm: Option<i64>,
    pub fast_period: Option<usize>,
    pub slow_period: Option<usize>,
    pub signal_period: Option<usize>,
}

/// One of the built-in strategies.
pub enum BuiltinStrategy {
    MeanReversion(MeanReversionStrategy),
    Momentum(MomentumStrategy),
    ThresholdBand(ThresholdBandStrategy),
    Breakout(BreakoutStrategy),
    Macd(MacdStrategy),
}

/// Kind of built-in strategy.
#[derive(Debug, Clone, Copy, PartialEq, Eq, Structural)]
pub enum StrategyKind {
    MeanReversion,
    Momentum,
    ThresholdBand,
    Breakout,
    Macd,
}

/// The strategy kind an already lower-cased name selects.
pub open spec fn kind_named(lower: Seq<char>) -> Option<StrategyKind> {
    if lower == "mean_reversion"@ || lower == "meanreversion"@ {
        Some(StrategyKind::MeanReversion)
    } else if lower == "momentum"@ {
        Some(StrategyKind::Momentum)
    } else if lower == "threshold_band"@ || lower == "thresholdband"@ || lower == "band"@ {
        Some(StrategyKind::ThresholdBand)
    } else if lower == "breakout"@ {
        Some(StrategyKind::Breakout)
    } else if lower == "macd"@ {
        Some(StrategyKind::Macd)
    } else {
        None
    }
}

/// A setting, or its default.
pub open spec fn or_default<T>(o: Option<T>, d: T) -> T {
    match o {
        Some(v) => v,
        None => d,
    }
}

/// The built-in strategy is of `kind`, set up from `p` with the defaults:
/// window 20, thresholds 5%, lookback 10 (20 for breakout), band 0.30 to
/// 0.70, breakout threshold 1%, MACD periods 12, 26 and 9, 10 contracts.
pub open spec fn builds(s: BuiltinStrategy, kind: StrategyKind, p: StrategyParams) -> bool {
    let size = or_default(p.position_size, 10i64);
    match kind {
        StrategyKind::MeanReversion => s matches BuiltinStrategy::MeanReversion(m) && m.settings() == (
            or_default(p.window, 20usize) as int,
            or_default(p.buy_threshold_ppm, 50_000i64) as int,
            or_default(p.sell_threshold_ppm, 50_000i64) as int,
            size,
        ),
        StrategyKind::Momentum => s matches BuiltinStrategy::Momentum(m) && m.settings() == (
            or_default(p.lookback, 10usize) as int,
            size,
        ) && !m.holding(),
        StrategyKind::ThresholdBand => s matches BuiltinStrategy::ThresholdBand(t) && t.settings() == (
            or_default(p.lower, 300_000i64),
            or_default(p.upper, 700_000i64),
            size,
        ) && !t.holding(),
        StrategyKind::Breakout => s matches BuiltinStrategy::Breakout(b) && b.settings() == (
            or_default(p.lookback, 20usize) as int,
            or_default(p.threshold_ppm, 10_000i64) as int,
            size,
        ) && !b.holding(),
        StrategyKind::Macd => s matches BuiltinStrategy::Macd(m) && m.settings() == (
            at_least_one(or_default(p.fast_period, 12usize)),
            at_least_one(or_default(p.slow_period, 26usize)),
            at_least_one(or_default(p.signal_period, 9usize)),
            size,
        ) && !m.holding(),
    }
}

/// A period, with 0 counted as 1.
pub open spec fn at_least_one(n: usize) -> int {
    if n == 0 { 1 } else { n as int }
}

fn kind_from_lowercase(lower: &str) -> (k: Option<StrategyKind>)
    ensures
        k == kind_named(lower@),
{
    if str_eq(lower, "mean_reversion") || str_eq(lower, "meanreversion") {
        Some(StrategyKind::MeanReversion)
    } else if str_eq(lower, "momentum") {
        Some(StrategyKind::Momentum)
    } else if str_eq(lower, "threshold_band") || str_eq(lower, "thresholdband") || str_eq(lower, "band") {
        Some(StrategyKind::ThresholdBand)
    } else if str_eq(lower, "breakout") {
        Some(StrategyKind::Breakout)
    } else if str_eq(lower, "macd") {
        Some(StrategyKind::Macd)
    } else {
        None
    }
}

/// A built-in strategy by name, in any letter case; `None` for an unknown name.
pub fn create_strategy(name: &str, params: &StrategyParams) -> (r: Option<BuiltinStrategy>)
    ensures
        match kind_named(lowercase(name@)) {
            None => r is None,
            Some(k) => r matches Some(s) && builds(s, k, *params),
        },
{
    let lower = to_lowercase(name);
    let size = match params.position_size {
        Some(v) => v,
        None => 10,
    };
    match kind_from_lowercase(lower.as_str()) {
        Some(StrategyKind::MeanReversion) => {
            let window = match params.window { Some(v) => v, None => 20 };
            let buy = match params.buy_threshold_ppm { Some(v) => v, None => 50_000 };
            let sell = match params.sell_threshold_ppm { Some(v) => v, None => 50_000 };
            Some(BuiltinStrategy::MeanReversion(MeanReversionStrategy::new(window, buy, sell, size)))
        },
        Some(StrategyKind::Momentum) => {
            let lookback = match params.lookback { Some(v) => v, None => 10 };
            Some(BuiltinStrategy::Momentum(MomentumStrategy::new(lookback, size)))
        },
        Some(StrategyKind::ThresholdBand) => {
            let lower_price = match params.lower { Some(v) => v, None => 300_000 };
            let upper_price = match params.upper { Some(v) => v, None => 700_000 };
            Some(BuiltinStrategy::ThresholdBand(ThresholdBandStrategy::new(lower_price, upper_price, size)))
        },
        Some(StrategyKind::Breakout) => {
            let lookback = match params.lookback { Some(v) => v, None => 20 };
            let threshold = match params.threshold_ppm { Some(v) => v, None => 10_000 };
            Some(BuiltinStrategy::Breakout(BreakoutStrategy::new(lookback, threshold, size)))
        },
        Some(StrategyKind::Macd) => {
            let fast = match params.fast_period { Some(v) => v, None => 12 };
            let slow = match params.slow_period { Some(v) => v, None => 26 };
            let signal = match params.signal_period { Some(v) => v, None => 9 };
            Some(BuiltinStrategy::Macd(MacdStrategy::new(fast, slow, signal, size)))
        },
        None => None,
    }
}

impl Strategy for BuiltinStrategy {
    fn name(&self) -> (r: &'static str)
        ensures
            r@ == match *self {
                BuiltinStrategy::MeanReversion(_) => "MeanReversion"@,
                BuiltinStrategy::Momentum(_) => "Momentum"@,
                BuiltinStrategy::ThresholdBand(_) => "ThresholdBand"@,
                BuiltinStrategy::Breakout(_) => "Breakout"@,
                BuiltinStrategy::Macd(_) => "MACD"@,
            },
    {
        match self {
            BuiltinStrategy::MeanReversion(s) => s.name(),
            BuiltinStrategy::Momentum(s) => s.name(),
            BuiltinStrategy::ThresholdBand(s) => s.name(),
            BuiltinStrategy::Breakout(s) => s.name(),
            BuiltinStrategy::Macd(s) => s.name(),
        }
    }

    fn evaluate(&mut self, candles: &Vec<Candle>, idx: usize) -> (r: Signal)
        ensures
            match (*old(self), *final(self)) {
                (BuiltinStrategy::MeanReversion(a), BuiltinStrategy::MeanReversion(b)) => {
                    &&& r == mean_reversion_signal(
                        a.settings().0,
                        a.settings().1,
                        a.settings().2,
                        a.settings().3,
                        candles@,
                        idx as int,
                    )
                    &&& b.settings() == a.settings()
                },
                (BuiltinStrategy::Momentum(a), BuiltinStrategy::Momentum(b)) => {
                    &&& (r, b.holding()) == momentum_step(a.settings().0, a.settings().1, a.holding(), candles@, idx as int)
                    &&& b.settings() == a.settings()
                },
                (BuiltinStrategy::ThresholdBand(a), BuiltinStrategy::ThresholdBand(b)) => {
                    &&& (r, b.holding()) == band_step(
                        a.settings().0,
                        a.settings().1,
                        a.settings().2,
                        a.holding(),
                        candles@,
                        idx as int,
                    )
                    &&& b.settings() == a.settings()
                },
                (BuiltinStrategy::Breakout(a), BuiltinStrategy::Breakout(b)) => {
                    &&& (r, b.holding()) == breakout_step(
                        a.settings().0,
                        a.settings().1,
                        a.settings().2,
                        a.holding(),
                        candles@,
                        idx as int,
                    )
                    &&& b.settings() == a.settings()
                },
                (BuiltinStrategy::Macd(a), BuiltinStrategy::Macd(b)) => {
                    &&& (r, b.holding()) == macd_step(
                        a.settings().0,
                        a.settings().1,
                        a.settings().2,
                        a.settings().3,
                        a.holding(),
                        candles@,
                        idx as int,
                    )
                    &&& b.settings() == a.settings()
                },
                _ => false,
            },
    {
        match self {
            BuiltinStrategy::MeanReversion(s) => s.evaluate(candles, idx),
            BuiltinStrategy::Momentum(s) => s.evaluate(candles, idx),
            BuiltinStrategy::ThresholdBand(s) => s.evaluate(candles, idx),
            BuiltinStrategy::Breakout(s) => s.evaluate(candles, idx),
            BuiltinStrategy::Macd(s) => s.evaluate(candles, idx),
        }
    }

    fn reset(&mut self)
        ensures
            match (*old(self), *final(self)) {
                (BuiltinStrategy::MeanReversion(a), BuiltinStrategy::MeanReversion(b)) => b.settings() == a.settings(),
                (BuiltinStrategy::Momentum(a), BuiltinStrategy::Momentum(b)) => b.settings() == a.settings()
                    && !b.holding(),
                (BuiltinStrategy::ThresholdBand(a), BuiltinStrategy::ThresholdBand(b)) => b.settings() == a.settings()
                    && !b.holding(),
                (BuiltinStrategy::Breakout(a), BuiltinStrategy::Breakout(b)) => b.settings() == a.settings()
                    && !b.holding(),
                (BuiltinStrategy::Macd(a), BuiltinStrategy::Macd(b)) => b.settings() == a.settings() && !b.holding(),
                _ => false,
            },
    {
        match self {
            BuiltinStrategy::MeanReversion(s) => s.reset(),
            BuiltinStrategy::Momentum(s) => s.reset(),
            BuiltinStrategy::ThresholdBand(s) => s.reset(),
            BuiltinStrategy::Breakout(s) => s.reset(),
            BuiltinStrategy::Macd(s) => s.reset(),
        }
    }
}


// ─── Catalogue ──────────────────────────────────────────────

/// A setting of a built-in strategy, with its default in millionths.
#[derive(Debug, Clone)]
pub struct ParamInfo {
    pub name: String,
    pub description: String,
    pub default_micros: i64,
}

/// A built-in strategy and its settings.
#[derive(Debug, Clone)]
pub struct StrategyInfo {
    pub name: String,
    pub description: String,
    pub parameters: Vec<ParamInfo>,
}

fn param(name: &str, description: &str, default_micros: i64) -> (p: ParamInfo)
    ensures
        p.name@ == name@,
        p.description@ == description@,
        p.default_micros == default_micros,
{
    ParamInfo { name: name.to_string(), description: description.to_string(), default_micros }
}

/// A setting's name, description and default, in millionths.
pub open spec fn param_view(p: ParamInfo) -> (Seq<char>, Seq<char>, i64) {
    (p.name@, p.description@, p.default_micros)
}

/// The catalogue of strategies offered for parameter tuning (mean
/// reversion, momentum and threshold band) under the names `create_strategy`
/// knows them by, with their settings and defaults.
pub fn available_strategies() -> (r: Vec<StrategyInfo>)
    ensures
        r@.len() == 3,
        r@[0].name@ == "mean_reversion"@,
        r@[0].description@ == "Buy when price drops below SMA, sell when above. Classic mean-reversion."@,
        r@[0].parameters@.map_values(|p: ParamInfo| param_view(p)) == seq![
            ("window"@, "SMA lookback period"@, 20_000_000i64),
            ("buy_threshold"@, "Buy when price < SMA * (1 - threshold)"@, 50_000i64),
            ("sell_threshold"@, "Sell when price > SMA * (1 + threshold)"@, 50_000i64),
            ("position_size"@, "Contracts per trade"@, 10_000_000i64),
        ],
        r@[1].name@ == "momentum"@,
        r@[1].description@ == "Buy on breakout above N-period high, sell on breakdown below N-period low."@,
        r@[1].parameters@.map_values(|p: ParamInfo| param_view(p)) == seq![
            ("lookback"@, "Lookback period for high/low"@, 10_000_000i64),
            ("position_size"@, "Contracts per trade"@, 10_000_000i64),
        ],
        r@[2].name@ == "threshold_band"@,
        r@[2].description@ == "Buy below lower threshold, sell above upper. Range-trading for prediction markets."@,
        r@[2].parameters@.map_values(|p: ParamInfo| param_view(p)) == seq![
            ("lower"@, "Lower price threshold (probability)"@, 300_000i64),
            ("upper"@, "Upper price threshold (probability)"@, 700_000i64),
            ("position_size"@, "Contracts per trade"@, 10_000_000i64),
        ],
{
    let mean_reversion = StrategyInfo {
        name: "mean_reversion".to_string(),
        description: "Buy when price drops below SMA, sell when above. Classic mean-reversion.".to_string(),
        parameters: vec![
            param("window", "SMA lookback period", 20_000_000),
            param("buy_threshold", "Buy when price < SMA * (1 - threshold)", 50_000),
            param("sell_threshold", "Sell when price > SMA * (1 + threshold)", 50_000),
            param("position_size", "Contracts per trade", 10_000_000),
        ],
    };
    let momentum = StrategyInfo {
        name: "momentum".to_string(),
        description: "Buy on breakout above N-period high, sell on breakdown below N-period low.".to_string(),
        parameters: vec![
            param("lookback", "Lookback period for high/low", 10_000_000),
            param("position_size", "Contracts per trade", 10_000_000),
        ],
    };
    let band = StrategyInfo {
        name: "threshold_band".to_string(),
        description: "Buy below lower threshold, sell above upper. Range-trading for prediction markets.".to_string(),
        parameters: vec![
            param("lower", "Lower price threshold (probability)", 300_000),
            param("upper", "Upper price threshold (probability)", 700_000),
            param("position_size", "Contracts per trade", 10_000_000),
        ],
    };
    assert(mean_reversion.parameters@.map_values(|p: ParamInfo| param_view(p)) =~= seq![
        ("window"@, "SMA lookback period"@, 20_000_000i64),
        ("buy_threshold"@, "Buy when price < SMA * (1 - threshold)"@, 50_000i64),
        ("sell_threshold"@, "Sell when price > SMA * (1 + threshold)"@, 50_000i64),
        ("position_size"@, "Contracts per trade"@, 10_000_000i64),
    ]);
    assert(momentum.parameters@.map_values(|p: ParamInfo| param_view(p)) =~= seq![
        ("lookback"@, "Lookback period for high/low"@, 10_000_000i64),
        ("position_size"@, "Contracts per trade"@, 10_000_000i64),
    ]);
    assert(band.parameters@.map_values(|p: ParamInfo| param_view(p)) =~= seq![
        ("lower"@, "Lower price threshold (probability)"@, 300_000i64),
        ("upper"@, "Upper price threshold (probability)"@, 700_000i64),
        ("position_size"@, "Contracts per trade"@, 10_000_000i64),
    ]);
    vec![mean_reversion, momentum, band]
}

} // verus!
