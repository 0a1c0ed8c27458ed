//! Signed decimal numbers in plain form.
//!
//! Real-valued quantities in a catalog document are decimal literals such as
//! `4.2` or `-117.761`. The crate keeps them exactly as written, normalized:
//! a sign, an integer part, and the fraction digits with trailing zeros
//! removed. Non-finite spellings (`NaN`, `inf`) and exponent notation are not
//! part of the grammar and are rejected. The representation carries a total
//! order that agrees with the numeric order of the written values.

use vstd::prelude::*;

verus! {

/// One decimal number: `(-1)^negative * (int_part + 0.f1 f2 ...)`,
/// where `frac` holds the fraction digits most significant first.
///
/// Normal form (see [`dec_wf`]): every fraction digit is below ten, the last
/// fraction digit is not zero, and zero is never negative.
#[derive(Debug, Clone, PartialEq, Eq)]
pub struct Decimal {
    pub negative: bool,
    pub int_part: u64,
    pub frac: Vec<u8>,
}

/// Mathematical model of a [`Decimal`].
pub struct DecimalView {
    pub negative: bool,
    pub int_part: u64,
    pub frac: Seq<u8>,
}

impl View for Decimal {
    type V = DecimalView;

    open spec fn view(&self) -> DecimalView {
        DecimalView { negative: self.negative, int_part: self.int_part, frac: self.frac@ }
    }
}

/// Normal form of a decimal: digits below ten, no trailing zero digit,
/// and no negative zero.
pub open spec fn dec_wf(d: DecimalView) -> bool {
    &&& forall|i: int| 0 <= i < d.frac.len() ==> d.frac[i] < 10
    &&& d.frac.len() > 0 ==> d.frac.last() != 0
    &&& d.negative ==> d.int_part > 0 || d.frac.len() > 0
}

/// True for the ASCII decimal digits.
pub open spec fn spec_is_digit(c: char) -> bool {
    '0' <= c && c <= '9'
}

/// Numeric value of one ASCII decimal digit.
pub open spec fn spec_digit_val(c: char) -> nat {
    (c as nat - '0' as nat) as nat
}

/// True when every character of `s` is an ASCII decimal digit.
pub open spec fn spec_is_digits(s: Seq<char>) -> bool {
    forall|i: int| 0 <= i < s.len() ==> spec_is_digit(s[i])
}

/// Value of a digit string read in base ten.
pub open spec fn spec_digits_val(s: Seq<char>) -> nat
    decreases s.len(),
{
    if s.len() == 0 {
        0
    } else {
        spec_digits_val(s.drop_last()) * 10 + spec_digit_val(s.last())
    }
}

/// Index of the first `.` in `s`, or `s.len()` when there is none.
pub open spec fn spec_first_dot(s: Seq<char>) -> int
    decreases s.len(),
{
    if s.len() == 0 {
        0
    } else if s[0] == '.' {
        0
    } else {
        1 + spec_first_dot(s.drop_first())
    }
}

/// The digit values of a digit string.
pub open spec fn spec_frac_digits(s: Seq<char>) -> Seq<u8> {
    Seq::new(s.len(), |i: int| spec_digit_val(s[i]) as u8)
}

/// `f` with its trailing zero digits removed.
pub open spec fn spec_strip_zeros(f: Seq<u8>) -> Seq<u8>
    decreases f.len(),
{
    if f.len() > 0 && f.last() == 0 {
        spec_strip_zeros(f.drop_last())
    } else {
        f
    }
}

/// The text after an optional leading sign.
pub open spec fn spec_sign_tail(s: Seq<char>) -> Seq<char> {
    if s.len() > 0 && (s[0] == '-' || s[0] == '+') {
        s.drop_first()
    } else {
        s
    }
}

/// True when the text carries a leading minus sign.
pub open spec fn spec_neg_sign(s: Seq<char>) -> bool {
    s.len() > 0 && s[0] == '-'
}

/// The decimal that the text `s` spells, or `None` when `s` is not a plain
/// decimal literal `['+'|'-'] digits ['.' digits]` with at least one digit,
/// or its integer part does not fit in a `u64`.
pub open spec fn spec_parse_decimal(s: Seq<char>) -> Option<DecimalView> {
    let t = spec_sign_tail(s);
    let neg = spec_neg_sign(s);
    let d = spec_first_dot(t);
    let ip = t.take(d);
    let fp = if d < t.len() {
        t.skip(d + 1)
    } else {
        Seq::empty()
    };
    if spec_is_digits(ip) && spec_is_digits(fp) && (ip.len() > 0 || fp.len() > 0)
        && spec_digits_val(ip) <= u64::MAX {
        let f = spec_strip_zeros(spec_frac_digits(fp));
        let ipv = spec_digits_val(ip) as u64;
        Some(
            DecimalView {
                negative: neg && (ipv > 0 || f.len() > 0),
                int_part: ipv,
                frac: f,
            },
        )
    } else {
        None
    }
}

proof fn lemma_first_dot_props(t: Seq<char>)
    ensures
        0 <= spec_first_dot(t) <= t.len(),
        forall|m: int| 0 <= m < spec_first_dot(t) ==> t[m] != '.',
        spec_first_dot(t) < t.len() ==> t[spec_first_dot(t)] == '.',
    decreases t.len(),
{
    if t.len() > 0 && t[0] != '.' {
        lemma_first_dot_props(t.drop_first());
        let fd = spec_first_dot(t);
        assert forall|m: int| 0 <= m < fd implies t[m] != '.' by {
            if m > 0 {
                assert(t[m] == t.drop_first()[m - 1]);
            }
        }
        if fd < t.len() {
            assert(t[fd] == t.drop_first()[fd - 1]);
        }
    }
}

proof fn lemma_first_dot_at(t: Seq<char>, k: int)
    requires
        0 <= k <= t.len(),
        forall|m: int| 0 <= m < k ==> t[m] != '.',
        k < t.len() ==> t[k] == '.',
    ensures
        spec_first_dot(t) == k,
    decreases t.len(),
{
    if t.len() == 0 {
    } else if t[0] == '.' {
        assert(k == 0);
    } else {
        assert(k > 0 || k < t.len());
        assert(k >= 1);
        let t1 = t.drop_first();
        assert forall|m: int| 0 <= m < k - 1 implies t1[m] != '.' by {
            assert(t1[m] == t[m + 1]);
        }
        if k - 1 < t1.len() {
            assert(t1[k - 1] == t[k]);
        }
        lemma_first_dot_at(t1, k - 1);
    }
}

proof fn lemma_digits_val_prefix(s: Seq<char>, k: int)
    requires
        0 <= k <= s.len(),
    ensures
        spec_digits_val(s.take(k)) <= spec_digits_val(s),
    decreases s.len(),
{
    if k == s.len() {
        assert(s.take(k) =~= s);
    } else {
        assert(s.take(k) =~= s.drop_last().take(k));
        lemma_digits_val_prefix(s.drop_last(), k);
    }
}

proof fn lemma_digits_val_step(s: Seq<char>, k: int)
    requires
        0 <= k < s.len(),
    ensures
        spec_digits_val(s.take(k + 1)) == spec_digits_val(s.take(k)) * 10 + spec_digit_val(s[k]),
{
    assert(s.take(k + 1).drop_last() =~= s.take(k));
    assert(s.take(k + 1).last() == s[k]);
}

fn is_digit(c: char) -> (b: bool)
    ensures
        b == spec_is_digit(c),
{
    '0' <= c && c <= '9'
}

fn digit_value(c: char) -> (v: u8)
    requires
        spec_is_digit(c),
    ensures
        v == spec_digit_val(c),
        v < 10,
{
    (c as u8) - ('0' as u8)
}

/// Parse the text of a decimal literal into its normal form.
///
/// Succeeds exactly on `['+'|'-'] digits ['.' digits]` with at least one
/// digit and an integer part that fits in a `u64`; the result is then the
/// spelled number, normalized.
pub fn parse_decimal(s: &str) -> (r: Option<Decimal>)
    ensures
        match r {
            Some(d) => spec_parse_decimal(s@) == Some(d@),
            None => spec_parse_decimal(s@) is None,
        },
{
    let n = s.unicode_len();
    let mut i: usize = 0;
    let mut neg = false;
    if n > 0 {
        let c0 = s.get_char(0);
        if c0 == '-' {
            neg = true;
            i = 1;
        } else if c0 == '+' {
            i = 1;
        }
    }
    let ghost t = s@.skip(i as int);
    proof {
        if i == 1 {
            assert(t =~= s@.drop_first());
        } else {
            assert(t =~= s@);
        }
        lemma_first_dot_props(t);
    }
    let mut val: u64 = 0;
    let mut j = i;
    while j < n && is_digit(s.get_char(j))
        invariant
            i <= j <= n,
            n == s@.len(),
            i <= 1,
            t == s@.skip(i as int),
            t == spec_sign_tail(s@),
            neg == spec_neg_sign(s@),
            forall|m: int| i <= m < j ==> spec_is_digit(s@[m]),
            val == spec_digits_val(t.take(j - i)),
        decreases n - j,
    {
        let c = s.get_char(j);
        let d = digit_value(c);
        proof {
            assert(t[j - i] == s@[j as int]);
            lemma_digits_val_step(t, j - i);
        }
        let wide: u128 = (val as u128) * 10 + (d as u128);
        if wide > u64::MAX as u128 {
            // The integer part cannot fit: the literal is rejected.
            proof {
                lemma_first_dot_props(t);
                let fd = spec_first_dot(t);
                if fd <= j - i {
                    assert(t[fd] == s@[fd + i]);
                    assert(spec_is_digit(t[fd]));
                    assert(false);
                }
                assert(fd > j - i);
                assert(t.take(j - i + 1) =~= t.take(fd).take(j - i + 1));
                lemma_digits_val_prefix(t.take(fd), j - i + 1);
                assert(spec_digits_val(t.take(fd)) > u64::MAX);
            }
            return None;
        }
        val = wide as u64;
        j += 1;
    }
    let ghost ipl = j - i;
    proof {
        assert forall|m: int| 0 <= m < ipl implies spec_is_digit(t[m]) by {
            assert(t[m] == s@[m + i]);
        }
    }
    if j == n {
        // No fraction part: the whole remainder is the integer part.
        proof {
            lemma_first_dot_at(t, ipl as int);
        }
        if j == i {
            return None;
        }
        let d = Decimal { negative: neg && val > 0, int_part: val, frac: Vec::new() };
        proof {
            assert(t.take(ipl as int) =~= t);
            assert(spec_strip_zeros(spec_frac_digits(Seq::empty())) =~= Seq::<u8>::empty());
            assert(spec_parse_decimal(s@) == Some(d@));
        }
        return Some(d);
    }
    let cj = s.get_char(j);
    proof {
        assert(t[ipl as int] == s@[j as int]);
    }
    if cj != '.' {
        // A character that is neither digit nor dot: rejected.
        proof {
            let fd = spec_first_dot(t);
            assert(fd > ipl) by {
                if fd <= ipl {
                    if fd < ipl {
                        assert(spec_is_digit(t[fd]));
                    }
                    assert(false);
                }
            }
            assert(!spec_is_digit(t.take(fd)[ipl as int]));
        }
        return None;
    }
    proof {
        lemma_first_dot_at(t, ipl as int);
    }
    let ghost fp = t.skip(ipl as int + 1);
    if j == i && j + 1 == n {
        // A lone dot: no digits at all.
        proof {
            assert(fp =~= Seq::<char>::empty());
        }
        return None;
    }
    let mut frac: Vec<u8> = Vec::new();
    let mut k = j + 1;
    while k < n
        invariant
            j + 1 <= k <= n,
            n == s@.len(),
            t == s@.skip(i as int),
            t == spec_sign_tail(s@),
            i <= j < n,
            fp == t.skip(ipl as int + 1),
            ipl == j - i,
            ipl == spec_first_dot(t),
            fp.len() == n - j - 1,
            forall|m: int| 0 <= m < fp.len() ==> fp[m] == s@[m + j + 1],
            frac@.len() == k - j - 1,
            forall|m: int|
                0 <= m < frac@.len() ==> spec_is_digit(#[trigger] fp[m]) && frac@[m]
                    == spec_digit_val(fp[m]),
        decreases n - k,
    {
        let c = s.get_char(k);
        if !is_digit(c) {
            proof {
                assert(fp[k - j - 1] == s@[k as int]);
                assert(!spec_is_digits(fp));
            }
            return None;
        }
        let v = digit_value(c);
        proof {
            assert(fp[k - j - 1] == s@[k as int]);
        }
        let ghost old_frac = frac@;
        frac.push(v);
        proof {
            assert forall|m: int| 0 <= m < frac@.len() implies spec_is_digit(#[trigger] fp[m])
                && frac@[m] == spec_digit_val(fp[m]) by {
                if m < old_frac.len() {
                    assert(spec_is_digit(fp[m]) && old_frac[m] == spec_digit_val(fp[m]));
                    assert(frac@[m] == old_frac[m]);
                } else {
                    assert(frac@[m] == v);
                    assert(fp[m] == s@[k as int]);
                }
            }
        }
        k += 1;
    }
    proof {
        assert(spec_is_digits(fp));
        assert(frac@ =~= spec_frac_digits(fp));
    }
    let ghost frac_full = frac@;
    while frac.len() > 0 && frac[frac.len() - 1] == 0
        invariant
            spec_strip_zeros(frac@) == spec_strip_zeros(frac_full),
        decreases frac.len(),
    {
        frac.pop();
    }
    proof {
        assert(frac@ == spec_strip_zeros(frac_full));
        assert(t.take(ipl as int) =~= t.take(spec_first_dot(t)));
    }
    let negative = neg && (val > 0 || frac.len() > 0);
    let d = Decimal { negative, int_part: val, frac };
    proof {
        assert(spec_parse_decimal(s@) == Some(d@));
    }
    Some(d)
}

/// The integer that the text `s` spells, or `None` when `s` is not a plain
/// integer literal `['+'|'-'] digits` whose value fits in an `i32`.
pub open spec fn spec_parse_i32(s: Seq<char>) -> Option<i32> {
    let t = spec_sign_tail(s);
    let neg = spec_neg_sign(s);
    if t.len() > 0 && spec_is_digits(t) && (if neg {
        spec_digits_val(t) <= 0x8000_0000
    } else {
        spec_digits_val(t) <= 0x7fff_ffff
    }) {
        Some(
            (if neg {
                -(spec_digits_val(t) as int)
            } else {
                spec_digits_val(t) as int
            }) as i32,
        )
    } else {
        None
    }
}

/// Parse the text of an integer literal.
///
/// Succeeds exactly on `['+'|'-'] digits` with at least one digit and a
/// value that fits in an `i32`; the result is then the spelled integer.
pub fn parse_i32(s: &str) -> (r: Option<i32>)
    ensures
        r == spec_parse_i32(s@),
{
    let n = s.unicode_len();
    let mut i: usize = 0;
    let mut neg = false;
    if n > 0 {
        let c0 = s.get_char(0);
        if c0 == '-' {
            neg = true;
            i = 1;
        } else if c0 == '+' {
            i = 1;
        }
    }
    let ghost t = s@.skip(i as int);
    proof {
        if i == 1 {
            assert(t =~= s@.drop_first());
        } else {
            assert(t =~= s@);
        }
    }
    if i == n {
        return None;
    }
    let bound: u64 = if neg {
        0x8000_0000
    } else {
        0x7fff_ffff
    };
    let mut val: u64 = 0;
    let mut j = i;
    while j < n
        invariant
            i <= j <= n,
            n == s@.len(),
            i <= 1,
            neg == spec_neg_sign(s@),
            t == s@.skip(i as int),
            t == spec_sign_tail(s@),
            bound == if neg { 0x8000_0000u64 } else { 0x7fff_ffffu64 },
            forall|m: int| 0 <= m < j - i ==> spec_is_digit(#[trigger] t[m]),
            val == spec_digits_val(t.take(j - i)),
            val <= bound,
        decreases n - j,
    {
        let c = s.get_char(j);
        if !is_digit(c) {
            proof {
                assert(t[j - i] == s@[j as int]);
            }
            return None;
        }
        let d = digit_value(c);
        proof {
            assert(t[j - i] == s@[j as int]);
            lemma_digits_val_step(t, j - i);
        }
        let wide: u64 = val * 10 + (d as u64);
        if wide > bound {
            // The value cannot fit: the literal is rejected, whatever follows.
            proof {
                if spec_is_digits(t) {
                    assert(t.take(t.len() as int) =~= t);
                    lemma_digits_val_prefix(t, j - i + 1);
                }
            }
            return None;
        }
        val = wide;
        j += 1;
    }
    proof {
        assert(t.take(t.len() as int) =~= t);
        assert forall|m: int| 0 <= m < t.len() implies spec_is_digit(#[trigger] t[m]) by {}
    }
    if neg {
        if val == 0x8000_0000 {
            Some(i32::MIN)
        } else {
            Some(-(val as i32))
        }
    } else {
        Some(val as i32)
    }
}

proof fn lemma_strip_zeros_props(f: Seq<u8>)
    requires
        forall|i: int| 0 <= i < f.len() ==> f[i] < 10,
    ensures
        forall|i: int| 0 <= i < spec_strip_zeros(f).len() ==> spec_strip_zeros(f)[i] < 10,
        spec_strip_zeros(f).len() > 0 ==> spec_strip_zeros(f).last() != 0,
    decreases f.len(),
{
    if f.len() > 0 && f.last() == 0 {
        lemma_strip_zeros_props(f.drop_last());
    }
}

/// Whatever `parse` accepts is in normal form.
pub proof fn lemma_parse_decimal_wf(s: Seq<char>)
    ensures
        spec_parse_decimal(s) matches Some(d) ==> dec_wf(d),
{
    if spec_parse_decimal(s) is Some {
        let t = spec_sign_tail(s);
        let d = spec_first_dot(t);
        let fp = if d < t.len() {
            t.skip(d + 1)
        } else {
            Seq::empty()
        };
        lemma_strip_zeros_props(spec_frac_digits(fp));
    }
}

/// Numeric order on fraction-digit strings in normal form: compare digit by
/// digit; a proper prefix is smaller, since what remains of the longer one
/// ends in a nonzero digit.
pub open spec fn frac_lt(a: Seq<u8>, b: Seq<u8>) -> bool
    decreases a.len() + b.len(),
{
    if b.len() == 0 {
        false
    } else if a.len() == 0 {
        true
    } else if a[0] != b[0] {
        a[0] < b[0]
    } else {
        frac_lt(a.drop_first(), b.drop_first())
    }
}

/// Order on the magnitudes of two decimals.
pub open spec fn abs_lt(a: DecimalView, b: DecimalView) -> bool {
    a.int_part < b.int_part || (a.int_part == b.int_part && frac_lt(a.frac, b.frac))
}

/// Numeric order on decimals in normal form.
pub open spec fn dec_lt(a: DecimalView, b: DecimalView) -> bool {
    if a.negative != b.negative {
        a.negative
    } else if !a.negative {
        abs_lt(a, b)
    } else {
        abs_lt(b, a)
    }
}

/// Reflexive closure of [`dec_lt`].
pub open spec fn dec_le(a: DecimalView, b: DecimalView) -> bool {
    dec_lt(a, b) || a == b
}

fn frac_lt_exec(a: &Vec<u8>, b: &Vec<u8>) -> (r: bool)
    ensures
        r == frac_lt(a@, b@),
{
    let mut i: usize = 0;
    proof {
        assert(a@.skip(0) =~= a@);
        assert(b@.skip(0) =~= b@);
    }
    while i < a.len() && i < b.len()
        invariant
            i <= a.len(),
            i <= b.len(),
            frac_lt(a@, b@) == frac_lt(a@.skip(i as int), b@.skip(i as int)),
        decreases a.len() - i,
    {
        if a[i] != b[i] {
            proof {
                assert(a@.skip(i as int)[0] == a@[i as int]);
                assert(b@.skip(i as int)[0] == b@[i as int]);
            }
            return a[i] < b[i];
        }
        proof {
            assert(a@.skip(i as int)[0] == a@[i as int]);
            assert(b@.skip(i as int)[0] == b@[i as int]);
            assert(a@.skip(i as int).drop_first() =~= a@.skip(i as int + 1));
            assert(b@.skip(i as int).drop_first() =~= b@.skip(i as int + 1));
        }
        i += 1;
    }
    proof {
        if i == b.len() {
            assert(b@.skip(i as int) =~= Seq::<u8>::empty());
        } else {
            assert(a@.skip(i as int) =~= Seq::<u8>::empty());
            assert(b@.skip(i as int).len() > 0);
        }
    }
    a.len() < b.len()
}

impl Decimal {
    /// An equal copy of this decimal.
    pub fn dup(&self) -> (r: Decimal)
        ensures
            r@ == self@,
    {
        let frac = self.frac.clone();
        proof {
            assert forall|i: int| 0 <= i < frac@.len() implies frac@[i] == self.frac@[i] by {
                assert(vstd::pervasive::cloned::<u8>(self.frac@[i], frac@[i]));
            }
            assert(frac@ =~= self.frac@);
        }
        Decimal { negative: self.negative, int_part: self.int_part, frac }
    }

    /// Numeric "strictly less than" on decimals in normal form.
    pub fn lt(&self, other: &Decimal) -> (r: bool)
        ensures
            r == dec_lt(self@, other@),
    {
        if self.negative != other.negative {
            self.negative
        } else {
            let (a, b) = if self.negative {
                (other, self)
            } else {
                (self, other)
            };
            if a.int_part != b.int_part {
                a.int_part < b.int_part
            } else {
                frac_lt_exec(&a.frac, &b.frac)
            }
        }
    }
}

proof fn lemma_frac_lt_trichotomy(a: Seq<u8>, b: Seq<u8>)
    requires
        a.len() > 0 ==> a.last() != 0,
        b.len() > 0 ==> b.last() != 0,
    ensures
        frac_lt(a, b) || frac_lt(b, a) || a == b,
        frac_lt(a, b) ==> !frac_lt(b, a) && a != b,
        frac_lt(b, a) ==> !frac_lt(a, b) && a != b,
    decreases a.len() + b.len(),
{
    if b.len() == 0 && a.len() == 0 {
        assert(a =~= b);
    } else if b.len() == 0 || a.len() == 0 {
    } else if a[0] != b[0] {
    } else {
        let a1 = a.drop_first();
        let b1 = b.drop_first();
        if a1.len() > 0 {
            assert(a1.last() == a.last());
        }
        if b1.len() > 0 {
            assert(b1.last() == b.last());
        }
        lemma_frac_lt_trichotomy(a1, b1);
        if a1 == b1 {
            assert forall|k: int| 0 <= k < a.len() implies a[k] == b[k] by {
                if k > 0 {
                    assert(a[k] == a1[k - 1]);
                    assert(b[k] == b1[k - 1]);
                }
            }
            assert(a =~= b);
        }
        if a == b {
            assert(a1 =~= b1);
        }
    }
}

proof fn lemma_frac_lt_trans(a: Seq<u8>, b: Seq<u8>, c: Seq<u8>)
    requires
        frac_lt(a, b),
        frac_lt(b, c),
    ensures
        frac_lt(a, c),
    decreases a.len() + b.len() + c.len(),
{
    if a.len() == 0 {
    } else {
        if a[0] == b[0] && b[0] == c[0] {
            lemma_frac_lt_trans(a.drop_first(), b.drop_first(), c.drop_first());
        }
    }
}

/// On values in normal form, exactly one of `dec_lt(a, b)`, `dec_lt(b, a)`
/// and `a == b` holds: the order is total.
pub proof fn lemma_dec_lt_trichotomy(a: DecimalView, b: DecimalView)
    requires
        dec_wf(a),
        dec_wf(b),
    ensures
        dec_lt(a, b) || dec_lt(b, a) || a == b,
        dec_lt(a, b) ==> !dec_lt(b, a) && a != b,
        dec_lt(b, a) ==> !dec_lt(a, b) && a != b,
{
    lemma_frac_lt_trichotomy(a.frac, b.frac);
    if !dec_lt(a, b) && !dec_lt(b, a) {
        assert(a.frac =~= b.frac);
    }
}

/// The order on decimals is transitive.
pub proof fn lemma_dec_lt_trans(a: DecimalView, b: DecimalView, c: DecimalView)
    requires
        dec_lt(a, b),
        dec_lt(b, c),
    ensures
        dec_lt(a, c),
{
    if a.negative == b.negative && b.negative == c.negative {
        if a.int_part == b.int_part && b.int_part == c.int_part {
            if !a.negative {
                lemma_frac_lt_trans(a.frac, b.frac, c.frac);
            } else {
                lemma_frac_lt_trans(c.frac, b.frac, a.frac);
            }
        }
    }
}

} // verus!
