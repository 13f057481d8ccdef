//! Decimal prices. The protocol carries prices as decimal strings in
//! `[0.00, 1.00]`; the gateway computes on them as fixed-point integers in
//! millionths ("micros"), so that `"0.65"` is `650_000`.
use vstd::prelude::*;

verus! {

/// Micros in one unit of price.
pub const PRICE_SCALE: i64 = 1_000_000;

/// Largest integer part accepted by the parser.
pub const MAX_INTEGER_PART: u64 = 1_000_000_000_000;

/// `c` is an ASCII decimal digit.
pub open spec fn is_digit(c: char) -> bool {
    '0' <= c && c <= '9'
}

/// Value of the decimal digit `c`.
pub open spec fn digit_value(c: char) -> nat {
    (c as nat - '0' as nat) as nat
}

/// State of the left-to-right scan of an unsigned decimal.
pub struct DecimalScan {
    /// The characters so far form a prefix of a valid decimal.
    pub ok: bool,
    /// A `.` has been read.
    pub seen_dot: bool,
    /// Digits read on either side of the dot.
    pub digits: nat,
    /// Value of the integer part.
    pub int_value: nat,
    /// Value of the fraction digits kept (at most six).
    pub frac_value: nat,
    /// Number of fraction digits kept (at most six).
    pub frac_len: nat,
}

/// The scan after one more character.
pub open spec fn scan_step(st: DecimalScan, c: char) -> DecimalScan {
    if !st.ok {
        st
    } else if is_digit(c) {
        if !st.seen_dot {
            let v = st.int_value * 10 + digit_value(c);
            if v > MAX_INTEGER_PART {
                DecimalScan { ok: false, ..st }
            } else {
                DecimalScan { int_value: v, digits: st.digits + 1, ..st }
            }
        } else if st.frac_len < 6 {
            DecimalScan {
                frac_value: st.frac_value * 10 + digit_value(c),
                frac_len: st.frac_len + 1,
                digits: st.digits + 1,
                ..st
            }
        } else {
            DecimalScan { digits: st.digits + 1, ..st }
        }
    } else if c == '.' {
        if st.seen_dot {
            DecimalScan { ok: false, ..st }
        } else {
            DecimalScan { seen_dot: true, ..st }
        }
    } else {
        DecimalScan { ok: false, ..st }
    }
}

/// The scan of a whole run of characters.
pub open spec fn scan(s: Seq<char>) -> DecimalScan
    decreases s.len(),
{
    if s.len() == 0 {
        DecimalScan { ok: true, seen_dot: false, digits: 0, int_value: 0, frac_value: 0, frac_len: 0 }
    } else {
        scan_step(scan(s.drop_last()), s.last())
    }
}

/// `10^n`.
pub open spec fn pow10(n: nat) -> nat
    decreases n,
{
    if n == 0 { 1 } else { 10 * pow10((n - 1) as nat) }
}

/// Micros of a scanned unsigned decimal: the fraction is cut after six digits.
pub open spec fn scan_micros(st: DecimalScan) -> int {
    (st.int_value * 1_000_000 + st.frac_value * pow10((6 - st.frac_len) as nat)) as int
}

/// Micros of a decimal string: an optional `+` or `-`, digits with at most
/// one `.`, at least one digit, an integer part of at most `MAX_INTEGER_PART`;
/// fraction digits past the sixth are dropped. `None` for anything else.
pub open spec fn decimal_micros(s: Seq<char>) -> Option<int> {
    let negative = s.len() > 0 && s[0] == '-';
    let body = if s.len() > 0 && (s[0] == '-' || s[0] == '+') { s.drop_first() } else { s };
    let st = scan(body);
    if st.ok && st.digits >= 1 {
        Some(if negative { -scan_micros(st) } else { scan_micros(st) })
    } else {
        None
    }
}

/// The first powers of ten.
pub proof fn lemma_pow10_table()
    ensures
        pow10(0) == 1,
        pow10(1) == 10,
        pow10(2) == 100,
        pow10(3) == 1000,
        pow10(4) == 10000,
        pow10(5) == 100000,
        pow10(6) == 1000000,
{
    reveal_with_fuel(pow10, 7);
}

proof fn lemma_scan_bounds(s: Seq<char>)
    ensures
        scan(s).int_value <= MAX_INTEGER_PART,
        scan(s).frac_len <= 6,
        scan(s).frac_value < pow10(scan(s).frac_len),
        scan(s).digits <= s.len(),
        !scan(s).seen_dot ==> scan(s).frac_len == 0 && scan(s).frac_value == 0,
    decreases s.len(),
{
    if s.len() > 0 {
        lemma_scan_bounds(s.drop_last());
    }
}

/// Parse a decimal price string into micros.
pub fn parse_price_micros(s: &str) -> (r: Option<i64>)
    ensures
        r matches Some(v) ==> decimal_micros(s@) == Some(v as int),
        r is None ==> decimal_micros(s@) is None,
{
    let n = s.unicode_len();
    let mut start: usize = 0;
    let mut negative = false;
    if n > 0 {
        let c0 = s.get_char(0);
        if c0 == '-' {
            negative = true;
            start = 1;
        } else if c0 == '+' {
            start = 1;
        }
    }
    let ghost body = s@.subrange(start as int, n as int);
    assert(body =~= (if s@.len() > 0 && (s@[0] == '-' || s@[0] == '+') { s@.drop_first() } else { s@ }));
    let mut ok = true;
    let mut seen_dot = false;
    let mut digits: usize = 0;
    let mut int_value: u64 = 0;
    let mut frac_value: u64 = 0;
    let mut frac_len: u64 = 0;
    let mut i: usize = start;
    while i < n
        invariant
            start <= i <= n,
            n == s@.len(),
            body == s@.subrange(start as int, n as int),
            digits <= i,
            ({
                let st = scan(body.subrange(0, i - start));
                &&& st.ok == ok
                &&& st.seen_dot == seen_dot
                &&& st.digits == digits
                &&& st.int_value == int_value
                &&& st.frac_value == frac_value
                &&& st.frac_len == frac_len
            }),
        decreases n - i,
    {
        let ghost prev = body.subrange(0, i - start);
        let ghost next = body.subrange(0, i + 1 - start);
        assert(next.drop_last() =~= prev);
        assert(next.last() == s@[i as int]);
        proof {
            lemma_scan_bounds(prev);
            lemma_pow10_table();
        }
        let c = s.get_char(i);
        if ok {
            if '0' <= c && c <= '9' {
                let d = (c as u32 - '0' as u32) as u64;
                if !seen_dot {
                    let v = int_value * 10 + d;
                    if v > MAX_INTEGER_PART {
                        ok = false;
                    } else {
                        int_value = v;
                        digits = digits + 1;
                    }
                } else if frac_len < 6 {
                    frac_value = frac_value * 10 + d;
                    frac_len = frac_len + 1;
                    digits = digits + 1;
                } else {
                    digits = digits + 1;
                }
            } else if c == '.' {
                if seen_dot {
                    ok = false;
                } else {
                    seen_dot = true;
                }
            } else {
                ok = false;
            }
        }
        i = i + 1;
    }
    assert(body.subrange(0, n - start) =~= body);
    proof {
        lemma_scan_bounds(body);
        lemma_pow10_table();
    }
    if !ok || digits == 0 {
        return None;
    }
    let mut scale: u64 = 1;
    let mut k: u64 = frac_len;
    while k < 6
        invariant
            frac_len <= k <= 6,
            scale == pow10((k - frac_len) as nat),
            scale <= 1_000_000,
            pow10(0) == 1 && pow10(1) == 10 && pow10(2) == 100 && pow10(3) == 1000 && pow10(4) == 10000
                && pow10(5) == 100000 && pow10(6) == 1000000,
        decreases 6 - k,
    {
        assert(pow10((k + 1 - frac_len) as nat) == 10 * pow10((k - frac_len) as nat));
        scale = scale * 10;
        k = k + 1;
    }
    assert(pow10(frac_len as nat) * pow10((6 - frac_len) as nat) == 1_000_000) by {
        lemma_pow10_table();
        if frac_len == 0 {
            assert(pow10(0) * pow10(6) == 1_000_000);
        } else if frac_len == 1 {
            assert(pow10(1) * pow10(5) == 1_000_000);
        } else if frac_len == 2 {
            assert(pow10(2) * pow10(4) == 1_000_000);
        } else if frac_len == 3 {
            assert(pow10(3) * pow10(3) == 1_000_000);
        } else if frac_len == 4 {
            assert(pow10(4) * pow10(2) == 1_000_000);
        } else if frac_len == 5 {
            assert(pow10(5) * pow10(1) == 1_000_000);
        } else {
            assert(pow10(6) * pow10(0) == 1_000_000);
        }
    }
    assert(frac_value * scale < 1_000_000) by (nonlinear_arith)
        requires
            frac_value < pow10(frac_len as nat),
            scale == pow10((6 - frac_len) as nat),
            pow10(frac_len as nat) * pow10((6 - frac_len) as nat) == 1_000_000,
    {
    }
    let magnitude: i64 = (int_value * 1_000_000 + frac_value * scale) as i64;
    if negative {
        Some(-magnitude)
    } else {
        Some(magnitude)
    }
}


/// Largest size of a parsed price, in micros: the integer part is at most
/// `MAX_INTEGER_PART` and the fraction is below one.
pub const MAX_PRICE_MICROS: i64 = 1_000_001_000_000_000_000;

/// Every price the parser accepts is at most `MAX_PRICE_MICROS` in size.
pub proof fn lemma_decimal_micros_bounded(s: Seq<char>)
    ensures
        decimal_micros(s) matches Some(v) ==> -MAX_PRICE_MICROS <= v <= MAX_PRICE_MICROS,
{
    let body = if s.len() > 0 && (s[0] == '-' || s[0] == '+') { s.drop_first() } else { s };
    let st = scan(body);
    lemma_scan_bounds(body);
    lemma_pow10_table();
    let l = st.frac_len;
    let scaled = st.frac_value * pow10((6 - l) as nat);
    let lo = pow10(l);
    let hi = pow10((6 - l) as nat);
    assert(lo * hi == 1_000_000 && hi >= 1) by {
        if l == 0 {
            assert(pow10(0) * pow10(6) == 1_000_000);
        } else if l == 1 {
            assert(pow10(1) * pow10(5) == 1_000_000);
        } else if l == 2 {
            assert(pow10(2) * pow10(4) == 1_000_000);
        } else if l == 3 {
            assert(pow10(3) * pow10(3) == 1_000_000);
        } else if l == 4 {
            assert(pow10(4) * pow10(2) == 1_000_000);
        } else if l == 5 {
            assert(pow10(5) * pow10(1) == 1_000_000);
        } else {
            assert(pow10(6) * pow10(0) == 1_000_000);
        }
    }
    assert(scaled < 1_000_000) by (nonlinear_arith)
        requires
            scaled == st.frac_value * hi,
            st.frac_value < lo,
            lo * hi == 1_000_000,
            hi >= 1,
    ;
    assert(scan_micros(st) <= MAX_PRICE_MICROS);
}


// ─── Rendering ──────────────────────────────────────────────

/// The character of a decimal digit.
pub open spec fn digit_char(d: int) -> char {
    if d == 0 { '0' }
    else if d == 1 { '1' }
    else if d == 2 { '2' }
    else if d == 3 { '3' }
    else if d == 4 { '4' }
    else if d == 5 { '5' }
    else if d == 6 { '6' }
    else if d == 7 { '7' }
    else if d == 8 { '8' }
    else { '9' }
}

/// Decimal digits of `n`, without leading zeros (`"0"` for zero).
pub open spec fn nat_text(n: nat) -> Seq<char>
    decreases n,
{
    if n < 10 {
        seq![digit_char(n as int)]
    } else {
        nat_text(n / 10).push(digit_char((n % 10) as int))
    }
}

/// The last `width` decimal digits of `n`, zero-padded on the left.
pub open spec fn padded_text(n: nat, width: nat) -> Seq<char>
    decreases width,
{
    if width == 0 {
        Seq::empty()
    } else {
        padded_text(n / 10, (width - 1) as nat).push(digit_char((n % 10) as int))
    }
}

/// A micros amount written with `places` decimals: a `-` for a negative
/// amount, the integer digits, and unless `places` is zero a `.` and exactly
/// `places` fraction digits. The size is rounded to `places` decimals, a
/// half rounding away from zero.
pub open spec fn fixed_text(v: int, places: nat) -> Seq<char> {
    let unit = pow10((6 - places) as nat) as int;
    let size: int = if v < 0 { -v } else { v };
    let q = ((size + unit / 2) / unit) as nat;
    let sign = if v < 0 { seq!['-'] } else { Seq::<char>::empty() };
    let whole = nat_text(q / pow10(places));
    if places == 0 {
        sign + whole
    } else {
        sign + whole + seq!['.'] + padded_text(q % pow10(places), places)
    }
}

/// Append one decimal digit.
fn push_digit(s: &mut String, d: u64)
    requires
        d < 10,
    ensures
        final(s)@ == old(s)@.push(digit_char(d as int)),
{
    proof {
        reveal_strlit("0");
        reveal_strlit("1");
        reveal_strlit("2");
        reveal_strlit("3");
        reveal_strlit("4");
        reveal_strlit("5");
        reveal_strlit("6");
        reveal_strlit("7");
        reveal_strlit("8");
        reveal_strlit("9");
    }
    let ghost before = s@;
    if d == 0 {
        s.append("0");
    } else if d == 1 {
        s.append("1");
    } else if d == 2 {
        s.append("2");
    } else if d == 3 {
        s.append("3");
    } else if d == 4 {
        s.append("4");
    } else if d == 5 {
        s.append("5");
    } else if d == 6 {
        s.append("6");
    } else if d == 7 {
        s.append("7");
    } else if d == 8 {
        s.append("8");
    } else {
        s.append("9");
    }
    assert(s@ =~= before.push(digit_char(d as int)));
}

/// Append the decimal digits of `n`.
fn push_nat(s: &mut String, n: u128)
    ensures
        final(s)@ == old(s)@ + nat_text(n as nat),
    decreases n,
{
    let ghost before = s@;
    if n >= 10 {
        push_nat(s, n / 10);
    }
    push_digit(s, (n % 10) as u64);
    assert(s@ =~= before + nat_text(n as nat));
}

/// Append the last `width` digits of `n`, zero-padded.
fn push_padded(s: &mut String, n: u128, width: u32)
    ensures
        final(s)@ == old(s)@ + padded_text(n as nat, width as nat),
    decreases width,
{
    let ghost before = s@;
    if width > 0 {
        push_padded(s, n / 10, width - 1);
        push_digit(s, (n % 10) as u64);
    }
    assert(s@ =~= before + padded_text(n as nat, width as nat));
}

/// Render a micros amount with `places` decimals (see `fixed_text`).
pub fn format_micros(v: i128, places: u32) -> (r: String)
    requires
        places <= 6,
        v > i128::MIN,
    ensures
        r@ == fixed_text(v as int, places as nat),
{
    proof {
        lemma_pow10_table();
    }
    let mut unit: u128 = 1;
    let mut k: u32 = places;
    while k < 6
        invariant
            places <= k <= 6,
            unit == pow10((k - places) as nat),
            unit <= 1_000_000,
            pow10(0) == 1 && pow10(1) == 10 && pow10(2) == 100 && pow10(3) == 1000 && pow10(4) == 10000
                && pow10(5) == 100000 && pow10(6) == 1000000,
        decreases 6 - k,
    {
        assert(pow10((k + 1 - places) as nat) == 10 * pow10((k - places) as nat));
        unit = unit * 10;
        k = k + 1;
    }
    let mut base: u128 = 1;
    let mut j: u32 = 0;
    while j < places
        invariant
            j <= places <= 6,
            base == pow10(j as nat),
            base <= 1_000_000,
            pow10(0) == 1 && pow10(1) == 10 && pow10(2) == 100 && pow10(3) == 1000 && pow10(4) == 10000
                && pow10(5) == 100000 && pow10(6) == 1000000,
        decreases places - j,
    {
        assert(pow10((j + 1) as nat) == 10 * pow10(j as nat));
        base = base * 10;
        j = j + 1;
    }
    let size: u128 = if v < 0 { (-v) as u128 } else { v as u128 };
    let q: u128 = (size + unit / 2) / unit;
    assert(((size + unit / 2) as int) / (unit as int) <= size + 1) by (nonlinear_arith)
        requires
            1 <= unit,
            unit / 2 < unit,
    ;
    let whole: u128 = q / base;
    let frac: u128 = q % base;
    let mut out = String::new();
    if v < 0 {
        proof { reveal_strlit("-"); }
        out.append("-");
    }
    push_nat(&mut out, whole);
    if places > 0 {
        proof { reveal_strlit("."); }
        out.append(".");
        push_padded(&mut out, frac, places);
    }
    proof {
        reveal_strlit("-");
        reveal_strlit(".");
    }
    out
}

/// Render a non-negative micros amount with six decimals (see `fixed_text`).
pub fn format_micros_unsigned(v: u128) -> (r: String)
    ensures
        r@ == fixed_text(v as int, 6),
{
    proof {
        lemma_pow10_table();
    }
    let whole: u128 = v / 1_000_000;
    let frac: u128 = v % 1_000_000;
    let mut out = String::new();
    push_nat(&mut out, whole);
    proof { reveal_strlit("."); }
    out.append(".");
    push_padded(&mut out, frac, 6);
    assert(((v as int + 1int / 2) / 1int) == v as int);
    assert(out@ =~= fixed_text(v as int, 6));
    out
}

/// A decimal text without trailing zeros after its point, nor a bare point.
pub open spec fn trim_fraction(s: Seq<char>) -> Seq<char>
    decreases s.len(),
{
    if s.len() > 0 && s.last() == '0' && s.contains('.') {
        trim_fraction(s.drop_last())
    } else if s.len() > 0 && s.last() == '.' {
        s.drop_last()
    } else {
        s
    }
}

/// `s` with the trailing zeros of its fraction, and a bare point, removed.
pub fn trim_fraction_exec(s: String) -> (r: String)
    ensures
        r@ == trim_fraction(s@),
{
    let t = s.as_str();
    let mut end: usize = t.unicode_len();
    let mut has_dot = false;
    let mut k: usize = 0;
    while k < end
        invariant
            end == t@.len(),
            k <= end,
            has_dot == t@.subrange(0, k as int).contains('.'),
        decreases end - k,
    {
        proof {
            let a = t@.subrange(0, k as int + 1);
            assert(a.drop_last() =~= t@.subrange(0, k as int));
            if t@[k as int] == '.' {
                assert(a[k as int] == '.');
            }
            if a.contains('.') && !t@.subrange(0, k as int).contains('.') {
                let w = choose|w: int| 0 <= w < a.len() && a[w] == '.';
                if w < k {
                    assert(t@.subrange(0, k as int)[w] == '.');
                }
            }
        }
        if t.get_char(k) == '.' {
            has_dot = true;
        }
        k = k + 1;
    }
    assert(t@.subrange(0, end as int) =~= t@);
    while end > 0 && has_dot && t.get_char(end - 1) == '0'
        invariant
            end <= t@.len(),
            has_dot == t@.subrange(0, end as int).contains('.'),
            trim_fraction(t@.subrange(0, end as int)) == trim_fraction(t@),
        decreases end,
    {
        let ghost a = t@.subrange(0, end as int);
        assert(a.drop_last() =~= t@.subrange(0, end - 1));
        proof {
            if a.contains('.') {
                let w = choose|w: int| 0 <= w < a.len() && a[w] == '.';
                assert(w < end - 1);
                assert(t@.subrange(0, end - 1)[w] == '.');
            }
        }
        end = end - 1;
    }
    let ghost a = t@.subrange(0, end as int);
    if end > 0 && t.get_char(end - 1) == '.' {
        assert(a.drop_last() =~= t@.subrange(0, end - 1));
        String::from_str(t.substring_char(0, end - 1))
    } else {
        String::from_str(t.substring_char(0, end))
    }
}


// ─── Integers ───────────────────────────────────────────────

/// Every character is an ASCII digit.
pub open spec fn all_digits(s: Seq<char>) -> bool {
    forall|k: int| 0 <= k < s.len() ==> is_digit(#[trigger] s[k])
}

/// Value of a run of decimal digits.
pub open spec fn digits_value(s: Seq<char>) -> nat
    decreases s.len(),
{
    if s.len() == 0 {
        0
    } else {
        digits_value(s.drop_last()) * 10 + digit_value(s.last())
    }
}

/// What `str::parse::<i64>` reads: an optional `+` or `-`, then at least
/// one ASCII digit, with a value within `i64`; `None` for anything else.
pub open spec fn i64_text_value(s: Seq<char>) -> Option<int> {
    let negative = s.len() > 0 && s[0] == '-';
    let body = if s.len() > 0 && (s[0] == '-' || s[0] == '+') { s.drop_first() } else { s };
    let v: int = if negative { -(digits_value(body) as int) } else { digits_value(body) as int };
    if body.len() >= 1 && all_digits(body) && i64::MIN <= v <= i64::MAX {
        Some(v)
    } else {
        None
    }
}

/// A longer run of digits is worth at least as much as its prefix.
proof fn lemma_digits_prefix(s: Seq<char>, j: int)
    requires
        0 <= j <= s.len(),
    ensures
        digits_value(s.take(j)) <= digits_value(s),
    decreases s.len() - j,
{
    if j < s.len() {
        lemma_digits_prefix(s, j + 1);
        assert(s.take(j + 1).drop_last() =~= s.take(j));
    } else {
        assert(s.take(j) =~= s);
    }
}

/// Integer in a text, as `str::parse::<i64>` reads it.
pub fn parse_i64(s: &str) -> (r: Option<i64>)
    ensures
        match r {
            Some(v) => i64_text_value(s@) == Some(v as int),
            None => i64_text_value(s@) is None,
        },
{
    let n = s.unicode_len();
    let mut start: usize = 0;
    let mut negative = false;
    if n > 0 {
        let c0 = s.get_char(0);
        if c0 == '-' {
            negative = true;
            start = 1;
        } else if c0 == '+' {
            start = 1;
        }
    }
    let ghost body = if s@.len() > 0 && (s@[0] == '-' || s@[0] == '+') { s@.drop_first() } else { s@ };
    assert(body =~= s@.subrange(start as int, n as int));
    if start == n {
        return None;
    }
    let mut acc: u128 = 0;
    let mut i: usize = start;
    while i < n
        invariant
            start <= i <= n,
            n == s@.len(),
            body =~= s@.subrange(start as int, n as int),
            body == (if s@.len() > 0 && (s@[0] == '-' || s@[0] == '+') { s@.drop_first() } else { s@ }),
            all_digits(s@.subrange(start as int, i as int)),
            acc == digits_value(s@.subrange(start as int, i as int)),
            acc <= 0x8000_0000_0000_0000u128,
        decreases n - i,
    {
        let c = s.get_char(i);
        let ghost pre = s@.subrange(start as int, i as int);
        let ghost next = s@.subrange(start as int, i as int + 1);
        assert(next.drop_last() =~= pre);
        if !('0' <= c && c <= '9') {
            assert(body[i - start] == c);
            assert(!is_digit(body[i - start]));
            assert(!all_digits(body));
            assert(i64_text_value(s@) is None);
            return None;
        }
        let d = (c as u32 - '0' as u32) as u128;
        let v = acc * 10 + d;
        if v > 0x8000_0000_0000_0000u128 {
            proof {
                assert(next.last() == c);
                assert(digits_value(next) == v);
                assert(all_digits(next));
                if all_digits(body) {
                    assert(body.take(i - start + 1) =~= next);
                    lemma_digits_prefix(body, i - start + 1);
                    assert(digits_value(body) > 0x8000_0000_0000_0000u128);
                }
                assert(i64_text_value(s@) is None);
            }
            return None;
        }
        acc = v;
        i = i + 1;
    }
    if negative {
        Some((0 - (acc as i128)) as i64)
    } else if acc > 0x7FFF_FFFF_FFFF_FFFFu128 {
        None
    } else {
        Some(acc as i64)
    }
}

// ─── Reading back what was written ──────────────────────────

proof fn lemma_digit_char(d: int)
    requires
        0 <= d < 10,
    ensures
        is_digit(digit_char(d)),
        digit_value(digit_char(d)) == d,
        digit_char(d) != '.',
        digit_char(d) != '-',
        digit_char(d) != '+',
{
}

proof fn lemma_scan_nat(n: nat)
    requires
        n <= MAX_INTEGER_PART,
    ensures
        scan(nat_text(n)) == (DecimalScan {
            ok: true,
            seen_dot: false,
            digits: nat_text(n).len(),
            int_value: n,
            frac_value: 0,
            frac_len: 0,
        }),
        nat_text(n).len() >= 1,
        is_digit(nat_text(n)[0]),
    decreases n,
{
    let t = nat_text(n);
    if n < 10 {
        lemma_digit_char(n as int);
        assert(t.drop_last() =~= Seq::<char>::empty());
        let e = scan(Seq::<char>::empty());
        assert(e == DecimalScan { ok: true, seen_dot: false, digits: 0, int_value: 0, frac_value: 0, frac_len: 0 });
        assert(scan(t) == scan_step(e, t.last()));
        assert(digit_value(t.last()) == n);
    } else {
        lemma_scan_nat(n / 10);
        lemma_digit_char((n % 10) as int);
        assert(t.drop_last() =~= nat_text(n / 10));
        assert(scan(t) == scan_step(scan(nat_text(n / 10)), t.last()));
        assert(digit_value(t.last()) == n % 10);
        assert((n / 10) * 10 + n % 10 == n);
        assert(t[0] == nat_text(n / 10)[0]);
    }
}

proof fn lemma_scan_frac(a: Seq<char>, st: DecimalScan, f: nat, k: nat)
    requires
        scan(a) == st,
        st.ok,
        st.seen_dot,
        st.frac_len == 0,
        st.frac_value == 0,
        k <= 6,
    ensures
        scan(a + padded_text(f, k)) == (DecimalScan {
            frac_value: f % pow10(k),
            frac_len: k,
            digits: st.digits + k,
            ..st
        }),
    decreases k,
{
    if k == 0 {
        assert(a + padded_text(f, k) =~= a);
        assert(pow10(0) == 1);
    } else {
        lemma_scan_frac(a, st, f / 10, (k - 1) as nat);
        lemma_digit_char((f % 10) as int);
        assert((a + padded_text(f, k)).drop_last() =~= a + padded_text(f / 10, (k - 1) as nat));
        let p = pow10((k - 1) as nat);
        assert(p > 0) by {
            lemma_pow10_positive((k - 1) as nat);
        }
        vstd::arithmetic::div_mod::lemma_mod_breakdown(f as int, 10, p as int);
    }
}

proof fn lemma_pow10_positive(n: nat)
    ensures
        pow10(n) > 0,
    decreases n,
{
    if n > 0 {
        lemma_pow10_positive((n - 1) as nat);
    }
}

/// `10^places * 10^(6 - places)` is a million.
proof fn lemma_unit_split(places: nat)
    requires
        places <= 6,
    ensures
        pow10(places) * pow10((6 - places) as nat) == 1_000_000,
        pow10(places) >= 1,
        pow10((6 - places) as nat) >= 1,
{
    lemma_pow10_table();
    if places == 0 {
        assert(pow10(0) * pow10(6) == 1_000_000);
    } else if places == 1 {
        assert(pow10(1) * pow10(5) == 1_000_000);
    } else if places == 2 {
        assert(pow10(2) * pow10(4) == 1_000_000);
    } else if places == 3 {
        assert(pow10(3) * pow10(3) == 1_000_000);
    } else if places == 4 {
        assert(pow10(4) * pow10(2) == 1_000_000);
    } else if places == 5 {
        assert(pow10(5) * pow10(1) == 1_000_000);
    } else {
        assert(pow10(6) * pow10(0) == 1_000_000);
    }
}

/// The digits of a written amount: its integer part, and unless `places`
/// is zero a point and `places` fraction digits.
pub open spec fn unsigned_text(whole: nat, frac: nat, places: nat) -> Seq<char> {
    if places == 0 {
        nat_text(whole)
    } else {
        nat_text(whole) + seq!['.'] + padded_text(frac, places)
    }
}

proof fn lemma_unsigned_text_scans(whole: nat, frac: nat, places: nat)
    requires
        places <= 6,
        whole <= MAX_INTEGER_PART,
        frac < pow10(places),
        places == 0 ==> frac == 0,
    ensures
        scan(unsigned_text(whole, frac, places)).ok,
        scan(unsigned_text(whole, frac, places)).digits >= 1,
        scan_micros(scan(unsigned_text(whole, frac, places))) == whole * 1_000_000 + frac * pow10((6 - places) as nat),
        is_digit(unsigned_text(whole, frac, places)[0]),
        unsigned_text(whole, frac, places).len() >= 1,
{
    lemma_pow10_table();
    lemma_scan_nat(whole);
    let body = unsigned_text(whole, frac, places);
    if places == 0 {
        assert(pow10(6) == 1_000_000);
    } else {
        let a = nat_text(whole).push('.');
        assert(a.drop_last() =~= nat_text(whole));
        let sa = scan(a);
        assert(sa == scan_step(scan(nat_text(whole)), '.'));
        lemma_scan_frac(a, sa, frac, places);
        assert(body =~= a + padded_text(frac, places));
        vstd::arithmetic::div_mod::lemma_small_mod(frac, pow10(places));
        assert(body[0] == nat_text(whole)[0]);
    }
}

/// An amount that is a whole number of `places`-decimal units splits
/// into the integer part and fraction digits that `fixed_text` writes.
proof fn lemma_exact_split(v: int, places: nat) -> (wf: (nat, nat))
    requires
        places <= 6,
        v % (pow10((6 - places) as nat) as int) == 0,
        -(MAX_INTEGER_PART * 1_000_000) <= v <= MAX_INTEGER_PART * 1_000_000,
    ensures
        fixed_text(v, places) == (if v < 0 { seq!['-'] } else { Seq::<char>::empty() }) + unsigned_text(
            wf.0,
            wf.1,
            places,
        ),
        wf.0 <= MAX_INTEGER_PART,
        wf.1 < pow10(places),
        places == 0 ==> wf.1 == 0,
        (if v < 0 { -v } else { v }) == wf.0 * 1_000_000 + wf.1 * pow10((6 - places) as nat),
{
    lemma_unit_split(places);
    let unit = pow10((6 - places) as nat) as int;
    let lo = pow10(places) as int;
    let size: int = if v < 0 { -v } else { v };
    assert(size % unit == 0) by {
        if v < 0 {
            vstd::arithmetic::div_mod::lemma_fundamental_div_mod(v, unit);
            assert(-v == (-(v / unit)) * unit) by (nonlinear_arith)
                requires
                    v == unit * (v / unit) + 0,
            ;
            vstd::arithmetic::div_mod::lemma_mod_multiples_basic(-(v / unit), unit);
        }
    }
    let q = size / unit;
    assert(size == unit * q) by {
        vstd::arithmetic::div_mod::lemma_fundamental_div_mod(size, unit);
    }
    assert((size + unit / 2) / unit == q) by {
        assert(0 <= unit / 2 < unit);
        vstd::arithmetic::div_mod::lemma_div_multiples_vanish_fancy(q, unit / 2, unit);
    }
    assert(q >= 0) by {
        vstd::arithmetic::div_mod::lemma_div_pos_is_pos(size, unit);
    }
    let whole = (q as nat) / (lo as nat);
    let frac = (q as nat) % (lo as nat);
    assert(q == lo * whole + frac) by {
        vstd::arithmetic::div_mod::lemma_fundamental_div_mod(q, lo);
    }
    assert(frac < lo) by {
        vstd::arithmetic::div_mod::lemma_mod_bound(q, lo);
    }
    assert(size == whole * 1_000_000 + frac * unit) by (nonlinear_arith)
        requires
            size == unit * q,
            q == lo * whole + frac,
            lo * unit == 1_000_000,
    ;
    assert(whole <= MAX_INTEGER_PART) by (nonlinear_arith)
        requires
            size == whole * 1_000_000 + frac * unit,
            frac >= 0,
            unit >= 1,
            size <= MAX_INTEGER_PART * 1_000_000,
    ;
    if places == 0 {
        assert(lo == 1);
        assert(frac == 0);
    }
    assert(fixed_text(v, places) =~= (if v < 0 { seq!['-'] } else { Seq::<char>::empty() }) + unsigned_text(
        whole,
        frac,
        places,
    ));
    (whole, frac)
}

/// A whole number of `places`-decimal units, written with `places`
/// decimals, reads back as itself.
pub proof fn lemma_fixed_text_reads_back(v: int, places: nat)
    requires
        places <= 6,
        v % (pow10((6 - places) as nat) as int) == 0,
        -(MAX_INTEGER_PART * 1_000_000) <= v <= MAX_INTEGER_PART * 1_000_000,
    ensures
        decimal_micros(fixed_text(v, places)) == Some(v),
{
    let (whole, frac) = lemma_exact_split(v, places);
    lemma_unsigned_text_scans(whole, frac, places);
    let t = fixed_text(v, places);
    let body = unsigned_text(whole, frac, places);
    if v < 0 {
        assert(t[0] == '-');
        assert(t.drop_first() =~= body);
    } else {
        assert(t =~= body);
        lemma_digit_char(0);
        assert(is_digit(t[0]));
    }
}

/// Writing an amount with `places` decimals, reading it back and writing
/// it again gives the same text; for amounts between zero and one, what is
/// read back stays between zero and one.
pub proof fn lemma_fixed_text_stable(v: int, places: nat)
    requires
        places <= 6,
        0 <= v <= 1_000_000,
    ensures
        decimal_micros(fixed_text(v, places)) matches Some(r) && 0 <= r <= 1_000_000 && fixed_text(r, places)
            == fixed_text(v, places),
{
    lemma_unit_split(places);
    let unit = pow10((6 - places) as nat) as int;
    let q = (v + unit / 2) / unit;
    let r = q * unit;
    assert(0 <= q) by {
        vstd::arithmetic::div_mod::lemma_div_pos_is_pos(v + unit / 2, unit);
    }
    assert(r <= v + unit / 2) by {
        vstd::arithmetic::div_mod::lemma_fundamental_div_mod(v + unit / 2, unit);
        vstd::arithmetic::div_mod::lemma_mod_bound(v + unit / 2, unit);
        assert(unit * q == q * unit) by (nonlinear_arith);
    }
    assert(r <= 1_000_000) by {
        // A million is a whole number of units, so rounding never passes it.
        let lo = pow10(places) as int;
        assert(lo * unit == 1_000_000);
        if q > lo {
            assert(q * unit >= (lo + 1) * unit) by (nonlinear_arith)
                requires
                    q >= lo + 1,
                    unit >= 1,
            ;
            assert((lo + 1) * unit == 1_000_000 + unit) by (nonlinear_arith)
                requires
                    lo * unit == 1_000_000,
            ;
            assert(unit / 2 < unit);
            assert(false);
        }
        assert(q * unit <= lo * unit) by (nonlinear_arith)
            requires
                q <= lo,
                unit >= 1,
        ;
    }
    assert(r % unit == 0) by {
        vstd::arithmetic::div_mod::lemma_mod_multiples_basic(q, unit);
    }
    assert((r + unit / 2) / unit == q) by {
        assert(0 <= unit / 2 < unit);
        assert(r == unit * q) by (nonlinear_arith)
            requires
                r == q * unit,
        ;
        vstd::arithmetic::div_mod::lemma_div_multiples_vanish_fancy(q, unit / 2, unit);
    }
    assert(fixed_text(r, places) =~= fixed_text(v, places));
    lemma_fixed_text_reads_back(r, places);
}

/// What `str::parse::<i32>` reads: the same texts as for `i64`, with a
/// value within `i32`.
pub open spec fn i32_text_value(s: Seq<char>) -> Option<int> {
    match i64_text_value(s) {
        Some(v) => if i32::MIN <= v <= i32::MAX { Some(v) } else { None },
        None => None,
    }
}

/// Integer in a text, as `str::parse::<i32>` reads it.
pub fn parse_i32(s: &str) -> (r: Option<i32>)
    ensures
        match r {
            Some(v) => i32_text_value(s@) == Some(v as int),
            None => i32_text_value(s@) is None,
        },
{
    match parse_i64(s) {
        Some(v) => if i32::MIN as i64 <= v && v <= i32::MAX as i64 { Some(v as i32) } else { None },
        None => None,
    }
}

/// An integer written in decimal, as `to_string` writes it.
pub fn int_string(v: i64) -> (r: String)
    ensures
        r@ == fixed_text(v * 1_000_000, 0),
{
    format_micros((v as i128) * 1_000_000, 0)
}
} // verus!
