//! Resource quantities such as `500m`, `2`, `128Mi` or `1.5Gi`, held exactly
//! as a whole number of nano-units.
use vstd::prelude::*;
use vstd::string::*;

verus! {

/// Nano-units in one whole unit.
pub const NANOS_PER_UNIT: u128 = 1_000_000_000;

pub open spec fn is_digit(c: char) -> bool {
    '0' <= c && c <= '9'
}

pub open spec fn digit_value(c: char) -> int {
    (c as int) - ('0' as int)
}

/// The number that a string of decimal digits spells.
pub open spec fn digits_value(s: Seq<char>) -> int
    decreases s.len(),
{
    if s.len() == 0 {
        0
    } else {
        10 * digits_value(s.drop_last()) + digit_value(s.last())
    }
}

pub open spec fn pow10(n: nat) -> int
    decreases n,
{
    if n == 0 {
        1
    } else {
        10 * pow10((n - 1) as nat)
    }
}

/// End of the run of digits that starts at `i`.
pub open spec fn digit_run_end(s: Seq<char>, i: int) -> int
    decreases s.len() - i,
{
    if 0 <= i < s.len() && is_digit(s[i]) {
        digit_run_end(s, i + 1)
    } else {
        i
    }
}

/// Nano-units in one unit of a decimal suffix (`n`, `u`, `m`, `k`, `M`,
/// `G`, `T`, `P`, `E`).
pub open spec fn decimal_suffix_nanos(c: char) -> Option<int> {
    if c == 'n' {
        Some(1)
    } else if c == 'u' {
        Some(1000)
    } else if c == 'm' {
        Some(1_000_000)
    } else if c == 'k' {
        Some(1_000_000_000_000)
    } else if c == 'M' {
        Some(1_000_000_000_000_000)
    } else if c == 'G' {
        Some(1_000_000_000_000_000_000)
    } else if c == 'T' {
        Some(1_000_000_000_000_000_000_000)
    } else if c == 'P' {
        Some(1_000_000_000_000_000_000_000_000)
    } else if c == 'E' {
        Some(1_000_000_000_000_000_000_000_000_000)
    } else {
        None
    }
}

/// How many times 1024 the binary suffix `<c>i` stands for (`Ki` once,
/// `Mi` twice, up to `Ei`).
pub open spec fn binary_suffix_power(c: char) -> Option<nat> {
    if c == 'K' {
        Some(1)
    } else if c == 'M' {
        Some(2)
    } else if c == 'G' {
        Some(3)
    } else if c == 'T' {
        Some(4)
    } else if c == 'P' {
        Some(5)
    } else if c == 'E' {
        Some(6)
    } else {
        None
    }
}

pub open spec fn pow1024(n: nat) -> int
    decreases n,
{
    if n == 0 {
        1
    } else {
        1024 * pow1024((n - 1) as nat)
    }
}

/// Nano-units in one unit of a suffix: none at all is a whole unit, one
/// letter a decimal suffix, a letter and `i` a binary one; `None` for
/// anything else.
pub open spec fn suffix_nanos(s: Seq<char>) -> Option<int> {
    if s.len() == 0 {
        Some(1_000_000_000)
    } else if s.len() == 1 {
        decimal_suffix_nanos(s[0])
    } else if s.len() == 2 && s[1] == 'i' {
        match binary_suffix_power(s[0]) {
            Some(k) => Some(pow1024(k) * 1_000_000_000),
            None => None,
        }
    } else {
        None
    }
}

/// The parts of a well-formed quantity `[+|-] digits [. digits] suffix`.
pub struct QuantityParts {
    pub negative: bool,
    /// The digits before and after the point, the point left out.
    pub digits: Seq<char>,
    /// How many of those digits stand after the point.
    pub fraction_len: nat,
    /// Nano-units in one unit of the suffix.
    pub multiplier: int,
}

/// How a string splits into sign, digits and suffix, or `None` where it is
/// not a quantity.
pub open spec fn quantity_parts(s: Seq<char>) -> Option<QuantityParts> {
    let a: int = if s.len() > 0 && (s[0] == '+' || s[0] == '-') { 1 } else { 0 };
    let b = digit_run_end(s, a);
    let c: int = if b < s.len() && s[b] == '.' { b + 1 } else { b };
    let d = digit_run_end(s, c);
    let int_digits = s.subrange(a, b);
    let frac_digits = s.subrange(c, d);
    if int_digits.len() + frac_digits.len() == 0 {
        None
    } else {
        match suffix_nanos(s.subrange(d, s.len() as int)) {
            None => None,
            Some(m) => Some(
                QuantityParts {
                    negative: a == 1 && s[0] == '-',
                    digits: int_digits + frac_digits,
                    fraction_len: frac_digits.len(),
                    multiplier: m,
                },
            ),
        }
    }
}

/// The amount in nano-units times `10^fraction_len`, sign left out.
pub open spec fn scaled_magnitude(p: QuantityParts) -> int {
    digits_value(p.digits) * p.multiplier
}

/// Why a string is not read as a quantity.
#[derive(Debug, Clone, Copy, PartialEq, Eq, Structural)]
pub enum QuantityError {
    /// Not of the form `[+|-] digits [. digits] suffix`.
    Malformed,
    /// Finer than one nano-unit.
    Inexact,
    /// Too large to hold.
    OutOfRange,
}

/// What reading `s` gives: the amount in nano-units, or the error.
pub open spec fn parse_result(s: Seq<char>) -> Result<int, QuantityError> {
    match quantity_parts(s) {
        None => Err(QuantityError::Malformed),
        Some(p) => {
            let m = scaled_magnitude(p);
            let div = pow10(p.fraction_len);
            if m > i128::MAX {
                Err(QuantityError::OutOfRange)
            } else if m % div != 0 {
                Err(QuantityError::Inexact)
            } else if p.negative {
                Ok(-(m / div))
            } else {
                Ok(m / div)
            }
        },
    }
}

/// An exact amount of a resource, in nano-units (a CPU core is
/// `10^9` nano-cores, a byte of memory `10^9` nano-bytes).
#[derive(Debug, Clone, Copy, PartialEq, Eq, Structural)]
pub struct Quantity {
    pub nanos: i128,
}

impl View for Quantity {
    type V = int;

    open spec fn view(&self) -> int {
        self.nanos as int
    }
}

pub open spec fn in_range(v: int) -> bool {
    i128::MIN <= v <= i128::MAX
}

impl Quantity {
    pub fn zero() -> (r: Quantity)
        ensures
            r@ == 0,
    {
        Quantity { nanos: 0 }
    }

    /// The sum, or `None` where it cannot be held.
    pub fn checked_add(&self, other: &Quantity) -> (r: Option<Quantity>)
        ensures
            r.is_some() <==> in_range(self@ + other@),
            r.is_some() ==> r.unwrap()@ == self@ + other@,
    {
        match self.nanos.checked_add(other.nanos) {
            Some(n) => Some(Quantity { nanos: n }),
            None => None,
        }
    }

    /// The difference `self - other`, or `None` where it cannot be held.
    pub fn checked_sub(&self, other: &Quantity) -> (r: Option<Quantity>)
        ensures
            r.is_some() <==> in_range(self@ - other@),
            r.is_some() ==> r.unwrap()@ == self@ - other@,
    {
        match self.nanos.checked_sub(other.nanos) {
            Some(n) => Some(Quantity { nanos: n }),
            None => None,
        }
    }

    pub fn le(&self, other: &Quantity) -> (r: bool)
        ensures
            r == (self@ <= other@),
    {
        self.nanos <= other.nanos
    }

    /// Reads a quantity such as `100m`, `2`, `1.5Gi` or `-3k`.
    pub fn parse(s: &str) -> (r: Result<Quantity, QuantityError>)
        ensures
            match r {
                Ok(q) => parse_result(s@) == Ok::<int, QuantityError>(q@),
                Err(e) => parse_result(s@) == Err::<int, QuantityError>(e),
            },
    {
        let chars = chars_of(s);
        parse_chars(&chars)
    }
}

fn chars_of(s: &str) -> (r: Vec<char>)
    ensures
        r@ == s@,
{
    let n = s.unicode_len();
    let mut out: Vec<char> = Vec::new();
    let mut i: usize = 0;
    while i < n
        invariant
            n == s@.len(),
            i <= n,
            out@ == s@.subrange(0, i as int),
        decreases n - i,
    {
        let c = s.get_char(i);
        out.push(c);
        i = i + 1;
        assert(out@ =~= s@.subrange(0, i as int));
    }
    assert(out@ =~= s@);
    out
}

fn digit_run(s: &Vec<char>, start: usize) -> (r: usize)
    requires
        start <= s@.len(),
    ensures
        r == digit_run_end(s@, start as int),
        start <= r <= s@.len(),
        forall|k: int| start <= k < r ==> is_digit(#[trigger] s@[k]),
{
    let mut i = start;
    while i < s.len() && '0' <= s[i] && s[i] <= '9'
        invariant
            start <= i <= s@.len(),
            digit_run_end(s@, start as int) == digit_run_end(s@, i as int),
            forall|k: int| start <= k < i ==> is_digit(#[trigger] s@[k]),
        decreases s@.len() - i,
    {
        i = i + 1;
    }
    i
}

fn suffix_multiplier(s: &Vec<char>, start: usize) -> (r: Option<u128>)
    requires
        start <= s@.len(),
    ensures
        match suffix_nanos(s@.subrange(start as int, s@.len() as int)) {
            None => r.is_none(),
            Some(m) => r.is_some() && r.unwrap() == m,
        },
{
    let ghost t = s@.subrange(start as int, s@.len() as int);
    let n = s.len() - start;
    let g: u128 = NANOS_PER_UNIT;
    if n == 0 {
        return Some(g);
    }
    let c0 = s[start];
    assert(t[0] == c0);
    if n == 1 {
        if c0 == 'n' {
            Some(1)
        } else if c0 == 'u' {
            Some(1000)
        } else if c0 == 'm' {
            Some(1_000_000)
        } else if c0 == 'k' {
            Some(1000 * g)
        } else if c0 == 'M' {
            Some(1_000_000 * g)
        } else if c0 == 'G' {
            Some(1_000_000_000 * g)
        } else if c0 == 'T' {
            Some(1_000_000_000_000 * g)
        } else if c0 == 'P' {
            Some(1_000_000_000_000_000 * g)
        } else if c0 == 'E' {
            Some(1_000_000_000_000_000_000 * g)
        } else {
            None
        }
    } else if n == 2 && s[start + 1] == 'i' {
        assert(t[1] == 'i');
        let power: u32 = if c0 == 'K' {
            1
        } else if c0 == 'M' {
            2
        } else if c0 == 'G' {
            3
        } else if c0 == 'T' {
            4
        } else if c0 == 'P' {
            5
        } else if c0 == 'E' {
            6
        } else {
            return None;
        };
        let mut m: u128 = g;
        let mut k: u32 = 0;
        proof {
            reveal_with_fuel(pow1024, 7);
            lemma_pow1024_monotone(0, 6);
        }
        assert(pow1024(6) == 1_152_921_504_606_846_976);
        while k < power
            invariant
                k <= power <= 6,
                m == pow1024(k as nat) * 1_000_000_000,
                m <= pow1024(6) * 1_000_000_000,
                pow1024(6) == 1_152_921_504_606_846_976,
            decreases power - k,
        {
            proof {
                lemma_pow1024_monotone((k + 1) as nat, 6);
                assert(pow1024((k + 1) as nat) == 1024 * pow1024(k as nat));
                assert(m * 1024 == pow1024((k + 1) as nat) * 1_000_000_000) by (nonlinear_arith)
                    requires
                        m == pow1024(k as nat) * 1_000_000_000,
                        pow1024((k + 1) as nat) == 1024 * pow1024(k as nat),
                ;
                assert(pow1024((k + 1) as nat) * 1_000_000_000 <= pow1024(6) * 1_000_000_000) by (nonlinear_arith)
                    requires
                        pow1024((k + 1) as nat) <= pow1024(6),
                ;
            }
            m = m * 1024;
            k = k + 1;
        }
        Some(m)
    } else {
        if n == 2 {
            assert(t[1] != 'i');
        }
        None
    }
}

proof fn lemma_pow1024_monotone(k: nat, n: nat)
    requires
        k <= n,
    ensures
        1 <= pow1024(k) <= pow1024(n),
    decreases n,
{
    if k < n {
        lemma_pow1024_monotone(k, (n - 1) as nat);
    } else if k > 0 {
        lemma_pow1024_monotone((k - 1) as nat, (k - 1) as nat);
    }
}

proof fn lemma_digits_nonneg(s: Seq<char>)
    requires
        forall|k: int| 0 <= k < s.len() ==> is_digit(#[trigger] s[k]),
    ensures
        digits_value(s) >= 0,
    decreases s.len(),
{
    if s.len() > 0 {
        lemma_digits_nonneg(s.drop_last());
    }
}

proof fn lemma_digits_prefix_le(s: Seq<char>, k: int)
    requires
        0 <= k <= s.len(),
        forall|i: int| 0 <= i < s.len() ==> is_digit(#[trigger] s[i]),
    ensures
        0 <= digits_value(s.subrange(0, k)) <= digits_value(s),
    decreases s.len(),
{
    if k == s.len() {
        assert(s.subrange(0, k) =~= s);
        lemma_digits_nonneg(s);
    } else {
        let t = s.drop_last();
        lemma_digits_prefix_le(t, k);
        assert(t.subrange(0, k) =~= s.subrange(0, k));
    }
}

proof fn lemma_pow10_positive(n: nat)
    ensures
        pow10(n) >= 1,
    decreases n,
{
    if n > 0 {
        lemma_pow10_positive((n - 1) as nat);
    }
}

proof fn lemma_pow10_monotone(k: nat, n: nat)
    requires
        k <= n,
    ensures
        pow10(k) <= pow10(n),
    decreases n,
{
    if k < n {
        lemma_pow10_monotone(k, (n - 1) as nat);
        lemma_pow10_positive((n - 1) as nat);
    }
}

proof fn lemma_suffix_positive(s: Seq<char>)
    ensures
        suffix_nanos(s) matches Some(m) ==> m >= 1,
{
    if s.len() == 2 && s[1] == 'i' {
        if let Some(k) = binary_suffix_power(s[0]) {
            lemma_pow1024_monotone(k, k);
        }
    }
}

/// The value of the digits `s[a..b]` followed by `s[c..d]`, or `None` where
/// it exceeds `u128`.
fn digits_u128(s: &Vec<char>, a: usize, b: usize, c: usize, d: usize) -> (r: Option<u128>)
    requires
        a <= b <= c <= d <= s@.len(),
        forall|k: int| a <= k < b ==> is_digit(#[trigger] s@[k]),
        forall|k: int| c <= k < d ==> is_digit(#[trigger] s@[k]),
    ensures
        ({
            let ds = s@.subrange(a as int, b as int) + s@.subrange(c as int, d as int);
            &&& 0 <= digits_value(ds)
            &&& r.is_some() ==> r.unwrap() == digits_value(ds)
            &&& r.is_none() ==> digits_value(ds) > u128::MAX
        }),
{
    let ghost ds = s@.subrange(a as int, b as int) + s@.subrange(c as int, d as int);
    let len1 = b - a;
    let total_len = len1 + (d - c);
    assert(ds.len() == total_len);
    assert forall|i: int| 0 <= i < ds.len() implies is_digit(#[trigger] ds[i]) by {
        if i < len1 {
            assert(ds[i] == s@[a + i]);
        } else {
            assert(ds[i] == s@[c + i - len1]);
        }
    }
    proof {
        lemma_digits_nonneg(ds);
    }
    let mut v: u128 = 0;
    let mut k: usize = 0;
    while k < total_len
        invariant
            ds.len() == total_len,
            len1 == b - a,
            total_len == len1 + (d - c),
            a <= b <= c <= d <= s@.len(),
            ds == s@.subrange(a as int, b as int) + s@.subrange(c as int, d as int),
            forall|i: int| 0 <= i < ds.len() ==> is_digit(#[trigger] ds[i]),
            k <= total_len,
            v == digits_value(ds.subrange(0, k as int)),
        decreases total_len - k,
    {
        let ch = if k < len1 { s[a + k] } else { s[c + (k - len1)] };
        assert(ch == ds[k as int]);
        let dig = (ch as u32 - '0' as u32) as u128;
        let ghost next = ds.subrange(0, k + 1);
        assert(next.drop_last() =~= ds.subrange(0, k as int));
        assert(next.last() == ch);
        let step = match v.checked_mul(10) {
            Some(x) => x.checked_add(dig),
            None => None,
        };
        match step {
            Some(x) => {
                v = x;
            },
            None => {
                proof {
                    lemma_digits_prefix_le(ds, k + 1);
                }
                return None;
            },
        }
        k = k + 1;
    }
    assert(ds.subrange(0, total_len as int) =~= ds);
    Some(v)
}

/// `total / 10^exp` where that division leaves no remainder.
fn divide_by_pow10(total: u128, exp: usize) -> (r: Option<u128>)
    ensures
        pow10(exp as nat) >= 1,
        r.is_some() <==> (total as int) % pow10(exp as nat) == 0,
        r.is_some() ==> r.unwrap() == (total as int) / pow10(exp as nat),
{
    proof {
        lemma_pow10_positive(exp as nat);
    }
    let mut div: u128 = 1;
    let mut j: usize = 0;
    let mut huge = false;
    while j < exp
        invariant
            j <= exp,
            !huge ==> div == pow10(j as nat),
            huge ==> pow10(exp as nat) > u128::MAX,
        decreases exp - j,
    {
        match div.checked_mul(10) {
            Some(x) => {
                div = x;
                j = j + 1;
            },
            None => {
                proof {
                    lemma_pow10_monotone((j + 1) as nat, exp as nat);
                }
                huge = true;
                j = exp;
            },
        }
    }
    let ghost p = pow10(exp as nat);
    if huge {
        if total != 0 {
            assert((total as int) % p == total as int) by (nonlinear_arith)
                requires
                    p > total as int,
                    total as int >= 0,
            ;
            None
        } else {
            assert((total as int) / p == 0 && (total as int) % p == 0) by (nonlinear_arith)
                requires
                    p > 0,
                    total as int == 0,
            ;
            Some(0)
        }
    } else {
        if total % div != 0 {
            None
        } else {
            Some(total / div)
        }
    }
}

#[verifier::rlimit(60)]
fn parse_chars(s: &Vec<char>) -> (r: Result<Quantity, QuantityError>)
    ensures
        match r {
            Ok(q) => parse_result(s@) == Ok::<int, QuantityError>(q@),
            Err(e) => parse_result(s@) == Err::<int, QuantityError>(e),
        },
{
    let n = s.len();
    let a: usize = if n > 0 && (s[0] == '+' || s[0] == '-') { 1 } else { 0 };
    let b = digit_run(s, a);
    let c: usize = if b < n && s[b] == '.' { b + 1 } else { b };
    let d = digit_run(s, c);
    if (b - a) + (d - c) == 0 {
        return Err(QuantityError::Malformed);
    }
    let mult = match suffix_multiplier(s, d) {
        None => {
            return Err(QuantityError::Malformed);
        },
        Some(m) => m,
    };
    let ghost parts = quantity_parts(s@).unwrap();
    assert(parts.digits == s@.subrange(a as int, b as int) + s@.subrange(c as int, d as int));
    assert(parts.multiplier == mult);
    assert(parts.fraction_len == d - c);
    proof {
        lemma_suffix_positive(s@.subrange(d as int, s@.len() as int));
    }
    let ghost dv = digits_value(parts.digits);
    let v = match digits_u128(s, a, b, c, d) {
        Some(v) => v,
        None => {
            assert(dv * mult >= dv) by (nonlinear_arith)
                requires
                    mult >= 1,
                    dv >= 0,
            ;
            return Err(QuantityError::OutOfRange);
        },
    };
    let total = match v.checked_mul(mult) {
        Some(x) => x,
        None => {
            return Err(QuantityError::OutOfRange);
        },
    };
    if total > i128::MAX as u128 {
        return Err(QuantityError::OutOfRange);
    }
    let mag = match divide_by_pow10(total, d - c) {
        Some(m) => m,
        None => {
            return Err(QuantityError::Inexact);
        },
    };
    assert(mag as int <= total as int) by (nonlinear_arith)
        requires
            mag as int == total as int / pow10((d - c) as nat),
            pow10((d - c) as nat) >= 1,
            total >= 0,
    ;
    let mag_i = mag as i128;
    if a == 1 && s[0] == '-' {
        Ok(Quantity { nanos: -mag_i })
    } else {
        Ok(Quantity { nanos: mag_i })
    }
}

} // verus!
