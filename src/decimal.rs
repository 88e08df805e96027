//! Exact decimal numbers, as written in a configuration document.
use vstd::prelude::*;

verus! {

/// The decimal number `(-1)^negative * digits / 10^scale`.
#[derive(Clone, Copy, Debug, PartialEq, Eq, Structural, Hash)]
pub struct Decimal {
    pub negative: bool,
    pub digits: u64,
    pub scale: usize,
}

/// `10^n`.
pub open spec fn pow10(n: nat) -> nat
    decreases n,
{
    if n == 0 {
        1
    } else {
        10 * pow10((n - 1) as nat)
    }
}

impl Decimal {
    /// The decimal number one.
    pub open spec fn spec_one() -> Decimal {
        Decimal { negative: false, digits: 1, scale: 0 }
    }

    /// Whether the number lies in the closed interval `[0, 1]`.
    pub open spec fn in_unit_interval(&self) -> bool {
        (!self.negative || self.digits == 0) && self.digits <= pow10(self.scale as nat)
    }

    /// The decimal number one.
    pub fn one() -> (r: Decimal)
        ensures
            r == Decimal::spec_one(),
    {
        Decimal { negative: false, digits: 1, scale: 0 }
    }

    /// Whether the number lies in the closed interval `[0, 1]`.
    pub fn is_in_unit_interval(&self) -> (r: bool)
        ensures
            r == self.in_unit_interval(),
    {
        if self.negative && self.digits != 0 {
            return false;
        }
        // 10^20 exceeds every u64
        if self.scale >= 20 {
            proof {
                lemma_pow10_monotone(20, self.scale as nat);
                reveal_with_fuel(pow10, 21);
                assert(pow10(20) == 100000000000000000000nat);
            }
            return true;
        }
        let mut p: u64 = 1;
        let mut n: usize = 0;
        while n < self.scale
            invariant
                n <= self.scale < 20,
                p == pow10(n as nat),
            decreases self.scale - n,
        {
            proof {
                lemma_pow10_monotone((n + 1) as nat, 19);
                reveal_with_fuel(pow10, 20);
                assert(pow10(19) == 10000000000000000000nat);
            }
            p = p * 10;
            n += 1;
        }
        self.digits <= p
    }
}

/// `10^n` grows with `n`.
pub proof fn lemma_pow10_monotone(m: nat, n: nat)
    requires
        m <= n,
    ensures
        pow10(m) <= pow10(n),
    decreases n,
{
    if m < n {
        lemma_pow10_monotone(m, (n - 1) as nat);
    }
}

pub open spec fn is_digit(c: char) -> bool {
    '0' <= c && c <= '9'
}

pub open spec fn digit_value(c: char) -> nat {
    (c as nat - '0' as nat) as nat
}

/// Every character of `s` is a decimal digit.
pub open spec fn all_digits(s: Seq<char>) -> bool {
    forall|i: int| 0 <= i < s.len() ==> is_digit(#[trigger] s[i])
}

/// The value of a string of decimal digits.
pub open spec fn digits_value(s: Seq<char>) -> nat
    decreases s.len(),
{
    if s.len() == 0 {
        0
    } else {
        digits_value(s.drop_last()) * 10 + digit_value(s.last())
    }
}

/// The index of the first `.` of `s`, or its length if there is none.
pub open spec fn dot_index(s: Seq<char>) -> int
    decreases s.len(),
{
    if s.len() == 0 {
        0
    } else if s[0] == '.' {
        0
    } else {
        1 + dot_index(s.drop_first())
    }
}

/// The unsigned decimal that `s` spells as `digits[.digits]` or `.digits`
/// (at least one digit in all), if its value fits in 64 bits.
pub open spec fn unsigned_decimal(s: Seq<char>, negative: bool) -> Option<Decimal> {
    let k = dot_index(s);
    let int_part = s.subrange(0, k);
    let frac_part = if k < s.len() {
        s.subrange(k + 1, s.len() as int)
    } else {
        Seq::empty()
    };
    let all = int_part + frac_part;
    if all_digits(all) && all.len() > 0 && digits_value(all) <= u64::MAX {
        Some(Decimal { negative, digits: digits_value(all) as u64, scale: frac_part.len() as usize })
    } else {
        None
    }
}

/// The index of the first `e` or `E` of `s`, or its length if there is none.
pub open spec fn exponent_index(s: Seq<char>) -> int
    decreases s.len(),
{
    if s.len() == 0 {
        0
    } else if s[0] == 'e' || s[0] == 'E' {
        0
    } else {
        1 + exponent_index(s.drop_first())
    }
}

/// The exponent that `t` spells: an optional sign, then at least one digit,
/// if its magnitude fits in 64 bits.
pub open spec fn exponent_of(t: Seq<char>) -> Option<int> {
    let negative = t.len() > 0 && t[0] == '-';
    let digits = if t.len() > 0 && (t[0] == '-' || t[0] == '+') {
        t.drop_first()
    } else {
        t
    };
    if digits.len() > 0 && all_digits(digits) && digits_value(digits) <= u64::MAX {
        Some(
            if negative {
                -digits_value(digits)
            } else {
                digits_value(digits) as int
            },
        )
    } else {
        None
    }
}

/// `d` times `10^x`, if it can be written with 64-bit digits.
pub open spec fn with_exponent(d: Decimal, x: int) -> Option<Decimal> {
    let scale = d.scale - x;
    if scale >= 0 {
        if scale <= usize::MAX {
            Some(Decimal { negative: d.negative, digits: d.digits, scale: scale as usize })
        } else {
            None
        }
    } else {
        let v = d.digits * pow10((-scale) as nat);
        if v <= u64::MAX {
            Some(Decimal { negative: d.negative, digits: v as u64, scale: 0 })
        } else {
            None
        }
    }
}

/// The unsigned number that `s` spells as a mantissa `digits[.digits]` or
/// `.digits`, then an optional exponent `e` or `E` with an optional sign
/// and digits.
pub open spec fn unsigned_number(s: Seq<char>, negative: bool) -> Option<Decimal> {
    let e = exponent_index(s);
    match unsigned_decimal(s.subrange(0, e), negative) {
        None => None,
        Some(d) => if e == s.len() {
            Some(d)
        } else {
            match exponent_of(s.subrange(e + 1, s.len() as int)) {
                None => None,
                Some(x) => with_exponent(d, x),
            }
        },
    }
}

/// The decimal number that `s` spells: an optional sign, then a mantissa
/// with at most one decimal point and an optional exponent, such as `-1.8`,
/// `0.25` or `8e-1`.
pub open spec fn decimal_of(s: Seq<char>) -> Option<Decimal> {
    if s.len() > 0 && s[0] == '-' {
        unsigned_number(s.drop_first(), true)
    } else if s.len() > 0 && s[0] == '+' {
        unsigned_number(s.drop_first(), false)
    } else {
        unsigned_number(s, false)
    }
}

/// Whether `c` is `lower` or its capital.
pub open spec fn same_letter(c: char, lower: char) -> bool {
    c == lower || (lower == 'i' && c == 'I') || (lower == 'n' && c == 'N') || (lower == 'f' && c
        == 'F') || (lower == 't' && c == 'T') || (lower == 'y' && c == 'Y') || (lower == 'a' && c
        == 'A')
}

/// Whether `s` is `word` regardless of case.
pub open spec fn is_word(s: Seq<char>, word: Seq<char>) -> bool {
    s.len() == word.len() && forall|i: int| 0 <= i < s.len() ==> same_letter(#[trigger] s[i], word[i])
}

/// Whether `s` spells an infinite or undefined real: an optional sign, then
/// `inf`, `infinity`, `nan`, `.inf` or `.nan` in any case.
pub open spec fn non_finite_of(s: Seq<char>) -> bool {
    let body = if s.len() > 0 && (s[0] == '-' || s[0] == '+') {
        s.drop_first()
    } else {
        s
    };
    is_word(body, "inf"@) || is_word(body, "infinity"@) || is_word(body, "nan"@) || is_word(
        body,
        ".inf"@,
    ) || is_word(body, ".nan"@)
}

proof fn lemma_dot_index(s: Seq<char>, k: int)
    requires
        0 <= k <= s.len(),
        k < s.len() ==> s[k] == '.',
        forall|i: int| 0 <= i < k ==> s[i] != '.',
    ensures
        dot_index(s) == k,
    decreases k,
{
    if k > 0 {
        assert(s[0] != '.');
        lemma_dot_index(s.drop_first(), k - 1);
    }
}

proof fn lemma_digits_value_grows(a: Seq<char>, b: Seq<char>)
    ensures
        digits_value(a) <= digits_value(a + b),
    decreases b.len(),
{
    if b.len() > 0 {
        lemma_digits_value_grows(a, b.drop_last());
        assert((a + b).drop_last() =~= a + b.drop_last());
    }
}

/// Read the digits of `s` from `from` to `to` after those of `done`, whose
/// value is `acc`: the value of all of them, if they are digits and it
/// fits in 64 bits.
fn read_digits(s: &str, from: usize, to: usize, acc: u64, Ghost(done): Ghost<Seq<char>>) -> (r:
    Option<u64>)
    requires
        from <= to <= s@.len(),
        all_digits(done),
        acc == digits_value(done),
    ensures
        ({
            let all = done + s@.subrange(from as int, to as int);
            match r {
                Some(v) => all_digits(all) && v == digits_value(all),
                None => !(all_digits(all) && digits_value(all) <= u64::MAX),
            }
        }),
{
    let mut acc = acc;
    let mut i = from;
    while i < to
        invariant
            from <= i <= to <= s@.len(),
            all_digits(done + s@.subrange(from as int, i as int)),
            acc == digits_value(done + s@.subrange(from as int, i as int)),
        decreases to - i,
    {
        let ghost before = done + s@.subrange(from as int, i as int);
        let ghost after = done + s@.subrange(from as int, i + 1);
        assert(after.drop_last() =~= before);
        assert(s@.subrange(from as int, to as int) =~= s@.subrange(from as int, i + 1) + s@.subrange(
            i + 1,
            to as int,
        ));
        assert(done + s@.subrange(from as int, to as int) =~= after + s@.subrange(
            i + 1,
            to as int,
        ));
        let c = s.get_char(i);
        assert(after[after.len() - 1] == c);
        if c < '0' || c > '9' {
            assert(after[after.len() - 1] == c);
            assert((done + s@.subrange(from as int, to as int))[after.len() - 1] == c);
            return None;
        }
        let d = (c as u32 - '0' as u32) as u64;
        if acc > (u64::MAX - d) / 10 {
            proof {
                lemma_digits_value_grows(after, s@.subrange(i + 1, to as int));
            }
            return None;
        }
        assert(all_digits(after)) by {
            assert forall|j: int| 0 <= j < after.len() implies is_digit(#[trigger] after[j]) by {
                if j < after.len() - 1 {
                    assert(after[j] == before[j]);
                }
            }
        }
        acc = acc * 10 + d;
        i += 1;
    }
    assert(done + s@.subrange(from as int, to as int) =~= done + s@.subrange(from as int, i as int));
    Some(acc)
}

/// Read the characters of `s` from `start` to `end` as digits with at most
/// one decimal point.
#[verifier::rlimit(40)]
fn parse_mantissa(s: &str, start: usize, end: usize, negative: bool) -> (r: Option<Decimal>)
    requires
        start <= end <= s@.len(),
    ensures
        r == unsigned_decimal(s@.subrange(start as int, end as int), negative),
{
    let len = end;
    let ghost body = s@.subrange(start as int, len as int);
    // find the first decimal point
    let mut k = start;
    while k < len && s.get_char(k) != '.'
        invariant
            start <= k <= len <= s@.len(),
            forall|i: int| start <= i < k ==> s@[i] != '.',
        decreases len - k,
    {
        k += 1;
    }
    proof {
        lemma_dot_index(body, k - start);
        assert(body.subrange(0, k - start) =~= s@.subrange(start as int, k as int));
    }
    let ghost empty = Seq::<char>::empty();
    let int_value = read_digits(s, start, k, 0, Ghost(empty));
    assert(empty + s@.subrange(start as int, k as int) =~= s@.subrange(start as int, k as int));
    let int_value = match int_value {
        Some(v) => v,
        None => {
            proof {
                let ip = s@.subrange(start as int, k as int);
                let fp = if k < len {
                    body.subrange(k - start + 1, body.len() as int)
                } else {
                    Seq::empty()
                };
                if all_digits(ip + fp) {
                    assert forall|i: int| 0 <= i < ip.len() implies is_digit(#[trigger] ip[i]) by {
                        assert((ip + fp)[i] == ip[i]);
                    }
                    lemma_digits_value_grows(ip, fp);
                }
            }
            return None;
        },
    };
    let frac_start = if k < len { k + 1 } else { len };
    let ghost ip = s@.subrange(start as int, k as int);
    let value = read_digits(s, frac_start, len, int_value, Ghost(ip));
    proof {
        let fp = s@.subrange(frac_start as int, len as int);
        if k < len {
            assert(fp =~= body.subrange(k - start + 1, body.len() as int));
        } else {
            assert(fp =~= Seq::<char>::empty());
        }
    }
    match value {
        Some(v) => {
            if k - start + (len - frac_start) == 0 {
                return None;
            }
            Some(Decimal { negative, digits: v, scale: len - frac_start })
        },
        None => None,
    }
}

fn letter_matches(c: char, lower: char) -> (r: bool)
    ensures
        r == same_letter(c, lower),
{
    c == lower || (lower == 'i' && c == 'I') || (lower == 'n' && c == 'N') || (lower == 'f' && c
        == 'F') || (lower == 't' && c == 'T') || (lower == 'y' && c == 'Y') || (lower == 'a' && c
        == 'A')
}

fn matches_word(s: &str, start: usize, word: &str) -> (r: bool)
    requires
        start <= s@.len(),
    ensures
        r == is_word(s@.subrange(start as int, s@.len() as int), word@),
{
    let len = s.unicode_len();
    let n = word.unicode_len();
    let ghost body = s@.subrange(start as int, len as int);
    if len - start != n {
        return false;
    }
    let mut i: usize = 0;
    while i < n
        invariant
            i <= n == len - start,
            len == s@.len(),
            n == word@.len(),
            start <= len,
            body == s@.subrange(start as int, len as int),
            forall|j: int| 0 <= j < i ==> same_letter(#[trigger] body[j], word@[j]),
        decreases n - i,
    {
        assert(body[i as int] == s@[start + i]);
        if !letter_matches(s.get_char(start + i), word.get_char(i)) {
            return false;
        }
        i += 1;
    }
    true
}

/// Whether `s` spells an infinite or undefined real, such as `.inf`,
/// `-Infinity` or `NaN`.
pub fn is_non_finite(s: &str) -> (r: bool)
    ensures
        r == non_finite_of(s@),
{
    let len = s.unicode_len();
    let mut start: usize = 0;
    if len > 0 {
        let c = s.get_char(0);
        if c == '-' || c == '+' {
            start = 1;
        }
    }
    assert(start == 1 ==> s@.subrange(1, s@.len() as int) =~= s@.drop_first());
    assert(start == 0 ==> s@.subrange(0, s@.len() as int) =~= s@);
    matches_word(s, start, "inf") || matches_word(s, start, "infinity") || matches_word(
        s,
        start,
        "nan",
    ) || matches_word(s, start, ".inf") || matches_word(s, start, ".nan")
}

proof fn lemma_exponent_index(s: Seq<char>, k: int)
    requires
        0 <= k <= s.len(),
        k < s.len() ==> (s[k] == 'e' || s[k] == 'E'),
        forall|i: int| 0 <= i < k ==> s[i] != 'e' && s[i] != 'E',
    ensures
        exponent_index(s) == k,
    decreases k,
{
    if k > 0 {
        lemma_exponent_index(s.drop_first(), k - 1);
    }
}

proof fn lemma_pow10_add(a: nat, b: nat)
    ensures
        pow10(a + b) == pow10(a) * pow10(b),
    decreases b,
{
    if b == 0 {
        assert(a + b == a);
        assert(pow10(b) == 1);
    } else {
        lemma_pow10_add(a, (b - 1) as nat);
        assert((a + b - 1) as nat == a + (b - 1) as nat);
        assert(pow10(a + b) == 10 * pow10((a + b - 1) as nat));
        assert(pow10(a) * pow10(b) == pow10(a) * (10 * pow10((b - 1) as nat)));
        assert(pow10(a) * (10 * pow10((b - 1) as nat)) == 10 * (pow10(a) * pow10((b - 1) as nat)))
            by (nonlinear_arith);
    }
}

proof fn lemma_pow10_positive(n: nat)
    ensures
        pow10(n) >= 1,
    decreases n,
{
    if n > 0 {
        lemma_pow10_positive((n - 1) as nat);
    }
}

/// Read the exponent spelled by the characters of `s` from `start` on.
fn parse_exponent(s: &str, start: usize) -> (r: Option<(bool, u64)>)
    requires
        start <= s@.len(),
    ensures
        match exponent_of(s@.subrange(start as int, s@.len() as int)) {
            Some(x) => r matches Some((negative, v)) && x == if negative {
                -(v as int)
            } else {
                v as int
            },
            None => r is None,
        },
{
    let len = s.unicode_len();
    let ghost t = s@.subrange(start as int, len as int);
    let mut from = start;
    let mut negative = false;
    if start < len {
        let c = s.get_char(start);
        if c == '-' {
            negative = true;
            from = start + 1;
        } else if c == '+' {
            from = start + 1;
        }
    }
    assert(from == start + 1 ==> s@.subrange(from as int, len as int) =~= t.drop_first());
    assert(from == start ==> s@.subrange(from as int, len as int) =~= t);
    if from == len {
        return None;
    }
    let ghost empty = Seq::<char>::empty();
    assert(empty + s@.subrange(from as int, len as int) =~= s@.subrange(from as int, len as int));
    match read_digits(s, from, len, 0, Ghost(empty)) {
        Some(v) => Some((negative, v)),
        None => None,
    }
}

/// `d` times `10^x`, where `x` is `v` or `-v`.
fn apply_exponent(d: Decimal, negative: bool, v: u64) -> (r: Option<Decimal>)
    ensures
        r == with_exponent(
            d,
            if negative {
                -(v as int)
            } else {
                v as int
            },
        ),
{
    if negative {
        if (v as u128) > (usize::MAX as u128) - (d.scale as u128) {
            return None;
        }
        return Some(Decimal { negative: d.negative, digits: d.digits, scale: d.scale + v as usize });
    }
    if (v as u128) <= (d.scale as u128) {
        return Some(Decimal { negative: d.negative, digits: d.digits, scale: d.scale - v as usize });
    }
    let k: u128 = (v as u128) - (d.scale as u128);
    if d.digits == 0 {
        return Some(Decimal { negative: d.negative, digits: 0, scale: 0 });
    }
    let mut acc: u64 = d.digits;
    let mut j: u128 = 0;
    assert(pow10(0) == 1);
    assert(acc == d.digits * pow10(0));
    while j < k
        invariant
            j <= k,
            k == v - d.scale,
            !negative,
            d.digits > 0,
            acc == d.digits * pow10(j as nat),
        decreases k - j,
    {
        if acc > u64::MAX / 10 {
            proof {
                lemma_pow10_add((j + 1) as nat, (k - j - 1) as nat);
                lemma_pow10_add(j as nat, 1);
                lemma_pow10_positive((k - j - 1) as nat);
                let rest = pow10((k - j - 1) as nat);
                assert(d.digits * pow10(k as nat) == (acc * 10) * rest) by (nonlinear_arith)
                    requires
                        acc == d.digits * pow10(j as nat),
                        pow10(k as nat) == pow10((j + 1) as nat) * rest,
                        pow10((j + 1) as nat) == pow10(j as nat) * 10,
                ;
                assert((acc * 10) * rest >= acc * 10) by (nonlinear_arith)
                    requires
                        rest >= 1,
                        acc >= 0,
                ;
                assert(acc * 10 > u64::MAX) by (nonlinear_arith)
                    requires
                        acc > u64::MAX / 10,
                ;
                assert(d.digits * pow10(k as nat) > u64::MAX);
                assert((-(d.scale - v)) as nat == k as nat);
            }
            return None;
        }
        proof {
            lemma_pow10_add(j as nat, 1);
            assert(d.digits * pow10((j + 1) as nat) == acc * 10) by (nonlinear_arith)
                requires
                    acc == d.digits * pow10(j as nat),
                    pow10((j + 1) as nat) == pow10(j as nat) * 10,
            ;
        }
        acc = acc * 10;
        j += 1;
    }
    Some(Decimal { negative: d.negative, digits: acc, scale: 0 })
}

/// Read a decimal number spelled as an optional sign, then digits with at
/// most one decimal point, then an optional exponent, such as `-1.8`,
/// `0.25` or `8e-1`.
pub fn parse_decimal(s: &str) -> (r: Option<Decimal>)
    ensures
        r == decimal_of(s@),
{
    let len = s.unicode_len();
    let mut start: usize = 0;
    let mut negative = false;
    if len > 0 {
        let c = s.get_char(0);
        if c == '-' {
            negative = true;
            start = 1;
        } else if c == '+' {
            start = 1;
        }
    }
    let ghost body = s@.subrange(start as int, len as int);
    assert(start == 1 ==> body =~= s@.drop_first());
    assert(start == 0 ==> body =~= s@);
    let mut e = start;
    while e < len && s.get_char(e) != 'e' && s.get_char(e) != 'E'
        invariant
            start <= e <= len == s@.len(),
            forall|i: int| start <= i < e ==> s@[i] != 'e' && s@[i] != 'E',
        decreases len - e,
    {
        e += 1;
    }
    proof {
        lemma_exponent_index(body, e - start);
        assert(body.subrange(0, e - start) =~= s@.subrange(start as int, e as int));
    }
    let d = match parse_mantissa(s, start, e, negative) {
        Some(d) => d,
        None => return None,
    };
    if e == len {
        return Some(d);
    }
    assert(body.subrange(e - start + 1, body.len() as int) =~= s@.subrange(e + 1, len as int));
    match parse_exponent(s, e + 1) {
        Some((neg_exp, v)) => apply_exponent(d, neg_exp, v),
        None => None,
    }
}

} // verus!
