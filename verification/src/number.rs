use vstd::prelude::*;

verus! {

/// An ASCII decimal digit.
pub open spec fn is_digit(c: char) -> bool {
    48 <= c as u32 && c as u32 <= 57
}

/// The value of one digit character.
pub open spec fn digit_val(c: char) -> int {
    c as u32 - 48
}

/// Every character of `ds` is a digit.
pub open spec fn all_digits(ds: Seq<char>) -> bool {
    forall|k: int| 0 <= k < ds.len() ==> is_digit(ds[k])
}

/// The number that a run of digit characters denotes, most significant
/// digit first.
pub open spec fn digits_val(ds: Seq<char>) -> int
    decreases ds.len(),
{
    if ds.len() == 0 {
        0
    } else {
        digits_val(ds.drop_last()) * 10 + digit_val(ds.last())
    }
}

pub proof fn lemma_digits_val_nonneg(ds: Seq<char>)
    requires
        all_digits(ds),
    ensures
        digits_val(ds) >= 0,
    decreases ds.len(),
{
    if ds.len() > 0 {
        lemma_digits_val_nonneg(ds.drop_last());
    }
}

/// A prefix of a digit run never denotes more than the whole run.
pub proof fn lemma_digits_val_take_le(ds: Seq<char>, k: int)
    requires
        all_digits(ds),
        0 <= k <= ds.len(),
    ensures
        digits_val(ds.take(k)) <= digits_val(ds),
    decreases ds.len() - k,
{
    if k < ds.len() {
        assert(ds.take(k + 1).drop_last() =~= ds.take(k));
        assert(forall|j: int| 0 <= j < k + 1 ==> is_digit(#[trigger] ds.take(k + 1)[j]));
        lemma_digits_val_nonneg(ds.take(k));
        lemma_digits_val_take_le(ds, k + 1);
    } else {
        assert(ds.take(k) =~= ds);
    }
}

/// Reads the digit run `v[start ..]` as a number, refusing an empty
/// run, a non-digit, and any value above `bound`.
pub open spec fn sp_digits_bounded(ds: Seq<char>, bound: int) -> Option<int> {
    if ds.len() == 0 || !all_digits(ds) {
        None
    } else if digits_val(ds) > bound {
        None
    } else {
        Some(digits_val(ds))
    }
}

pub open spec fn opt_digits_is(r: Option<u64>, ds: Seq<char>, bound: int) -> bool {
    match r {
        Some(m) => sp_digits_bounded(ds, bound) == Some(m as int),
        None => sp_digits_bounded(ds, bound) is None,
    }
}

pub fn parse_digits_bounded(v: &Vec<char>, start: usize, bound: u64) -> (r: Option<u64>)
    requires
        start <= v@.len(),
    ensures
        opt_digits_is(r, v@.skip(start as int), bound as int),
{
    let ghost ds = v@.skip(start as int);
    let n = v.len();
    if start == n {
        return None;
    }
    let mut acc: u64 = 0;
    let mut i: usize = start;
    proof {
        assert(ds.take(0) =~= Seq::<char>::empty());
    }
    while i < n
        invariant
            start <= i <= n,
            n == v@.len(),
            ds == v@.skip(start as int),
            acc as int == digits_val(ds.take(i - start)),
            acc <= bound,
            forall|k: int| 0 <= k < i - start ==> is_digit(ds[k]),
        decreases n - i,
    {
        let c = v[i];
        let cu = c as u32;
        proof {
            assert(ds[i - start] == v@[i as int]);
        }
        if !(48 <= cu && cu <= 57) {
            proof {
                assert(!is_digit(ds[i - start]));
            }
            return None;
        }
        let d: u64 = (cu - 48) as u64;
        let wide: u128 = acc as u128 * 10 + d as u128;
        proof {
            assert(ds.take(i - start + 1).drop_last() =~= ds.take(i - start));
            assert(ds.take(i - start + 1).last() == ds[i - start]);
        }
        if wide > bound as u128 {
            proof {
                if all_digits(ds) {
                    lemma_digits_val_take_le(ds, i - start + 1);
                }
            }
            return None;
        }
        acc = wide as u64;
        i += 1;
    }
    proof {
        assert(ds.take(n - start) =~= ds);
    }
    Some(acc)
}

/// What a string-encoded signed 64-bit integer means: an optional
/// sign, then one or more digits, with the value in range; anything
/// else is refused.  This matches how the standard library reads an
/// `i64` out of a string.
pub open spec fn sp_parse_i64(v: Seq<char>) -> Option<i64> {
    let neg = v.len() > 0 && v[0] == '-';
    let ds = if v.len() > 0 && (v[0] == '-' || v[0] == '+') {
        v.drop_first()
    } else {
        v
    };
    if ds.len() == 0 || !all_digits(ds) {
        None
    } else {
        let m = digits_val(ds);
        if neg {
            if m <= 0x8000_0000_0000_0000 {
                Some((-m) as i64)
            } else {
                None
            }
        } else {
            if m <= 0x7fff_ffff_ffff_ffff {
                Some(m as i64)
            } else {
                None
            }
        }
    }
}

pub fn parse_i64_chars(v: &Vec<char>) -> (r: Option<i64>)
    ensures
        r == sp_parse_i64(v@),
{
    let n = v.len();
    if n == 0 {
        return None;
    }
    let c0 = v[0];
    let neg: bool = c0 == '-';
    let signed: bool = c0 == '-' || c0 == '+';
    let start: usize = if signed {
        1
    } else {
        0
    };
    let bound: u64 = if neg {
        0x8000_0000_0000_0000
    } else {
        0x7fff_ffff_ffff_ffff
    };
    proof {
        if signed {
            assert(v@.skip(1) =~= v@.drop_first());
        } else {
            assert(v@.skip(0) =~= v@);
        }
    }
    match parse_digits_bounded(v, start, bound) {
        None => None,
        Some(m) => {
            if neg {
                if m == 0x8000_0000_0000_0000u64 {
                    Some(i64::MIN)
                } else {
                    Some(-(m as i64))
                }
            } else {
                Some(m as i64)
            }
        },
    }
}

/// One digit as a character.
pub open spec fn digit_char(d: int) -> char {
    if d == 0 {
        '0'
    } else if d == 1 {
        '1'
    } else if d == 2 {
        '2'
    } else if d == 3 {
        '3'
    } else if d == 4 {
        '4'
    } else if d == 5 {
        '5'
    } else if d == 6 {
        '6'
    } else if d == 7 {
        '7'
    } else if d == 8 {
        '8'
    } else {
        '9'
    }
}

fn digit_char_x(d: u64) -> (c: char)
    requires
        d <= 9,
    ensures
        c == digit_char(d as int),
{
    if d == 0 {
        '0'
    } else if d == 1 {
        '1'
    } else if d == 2 {
        '2'
    } else if d == 3 {
        '3'
    } else if d == 4 {
        '4'
    } else if d == 5 {
        '5'
    } else if d == 6 {
        '6'
    } else if d == 7 {
        '7'
    } else if d == 8 {
        '8'
    } else {
        '9'
    }
}

/// The digits of a non-negative number, most significant first.
pub open spec fn sp_digits_str(m: int) -> Seq<char>
    decreases m,
{
    if m < 10 {
        seq![digit_char(m)]
    } else {
        sp_digits_str(m / 10).push(digit_char(m % 10))
    }
}

fn digits_vec(m: u64) -> (r: Vec<char>)
    ensures
        r@ == sp_digits_str(m as int),
    decreases m,
{
    if m < 10 {
        let mut r: Vec<char> = Vec::new();
        r.push(digit_char_x(m));
        proof {
            assert(r@ =~= seq![digit_char(m as int)]);
        }
        r
    } else {
        let mut r = digits_vec(m / 10);
        r.push(digit_char_x(m % 10));
        r
    }
}

/// The canonical decimal rendering of a signed 64-bit integer.
pub open spec fn sp_i64_str(n: int) -> Seq<char> {
    if n < 0 {
        seq!['-'] + sp_digits_str(-n)
    } else {
        sp_digits_str(n)
    }
}

pub fn i64_to_string(n: i64) -> (r: String)
    ensures
        r@ == sp_i64_str(n as int),
{
    let mag: u64 = if n >= 0 {
        n as u64
    } else {
        (-(n as i128)) as u64
    };
    let mut out: Vec<char> = Vec::new();
    if n < 0 {
        out.push('-');
    }
    let mut ds = digits_vec(mag);
    out.append(&mut ds);
    proof {
        if n < 0 {
            assert(out@ =~= seq!['-'] + sp_digits_str(mag as int));
        }
    }
    crate::chars::chars_to_string(&out)
}

/// Rendering a number and reading it back gives the digits' value.
pub proof fn lemma_digits_str_val(m: int)
    requires
        m >= 0,
    ensures
        all_digits(sp_digits_str(m)),
        digits_val(sp_digits_str(m)) == m,
        sp_digits_str(m).len() >= 1,
    decreases m,
{
    if m < 10 {
        let s = sp_digits_str(m);
        assert(s.drop_last() =~= Seq::<char>::empty());
        assert(s.last() == digit_char(m));
        assert(digit_val(digit_char(m)) == m);
        assert(digits_val(Seq::<char>::empty()) == 0);
        assert(digits_val(s) == digits_val(s.drop_last()) * 10 + digit_val(s.last()));
    } else {
        lemma_digits_str_val(m / 10);
        let p = sp_digits_str(m / 10);
        let s = sp_digits_str(m);
        assert(s.drop_last() =~= p);
        assert(s.last() == digit_char(m % 10));
        assert(0 <= m % 10 <= 9);
        assert(digit_val(digit_char(m % 10)) == m % 10);
        assert(digits_val(s) == digits_val(s.drop_last()) * 10 + digit_val(s.last()));
        vstd::arithmetic::div_mod::lemma_fundamental_div_mod(m, 10);
    }
}

/// Encoding an integer and decoding the result recovers the value
/// exactly, for every signed 64-bit integer.
pub proof fn lemma_i64_round_trip(n: i64)
    ensures
        sp_parse_i64(sp_i64_str(n as int)) == Some(n),
{
    if n >= 0 {
        lemma_digits_str_val(n as int);
        let v = sp_i64_str(n as int);
        assert(is_digit(v[0]));
        assert(v[0] != '-' && v[0] != '+');
    } else {
        let mag = -(n as int);
        lemma_digits_str_val(mag);
        let v = sp_i64_str(n as int);
        assert(v[0] == '-');
        assert(v.drop_first() =~= sp_digits_str(mag));
    }
}

/// Reads a string-encoded signed 64-bit integer, as the wire format
/// carries prices and page numbers.
pub fn str_to_i64(s: &str) -> (r: Option<i64>)
    ensures
        r == sp_parse_i64(s@),
{
    let v = crate::chars::to_char_vec(s);
    parse_i64_chars(&v)
}

/// Ten to the power `k`.
pub open spec fn pow10(k: nat) -> int
    decreases k,
{
    if k == 0 {
        1
    } else {
        10 * pow10((k - 1) as nat)
    }
}

pub proof fn lemma_pow10_pos(k: nat)
    ensures
        pow10(k) >= 1,
    decreases k,
{
    if k > 0 {
        lemma_pow10_pos((k - 1) as nat);
    }
}

pub proof fn lemma_pow10_mono(a: nat, b: nat)
    requires
        a <= b,
    ensures
        pow10(a) <= pow10(b),
    decreases b - a,
{
    if a < b {
        lemma_pow10_mono(a, (b - 1) as nat);
        lemma_pow10_pos((b - 1) as nat);
    }
}

fn pow10_u64(k: u32) -> (r: u64)
    requires
        k <= 18,
    ensures
        r as int == pow10(k as nat),
{
    let mut acc: u64 = 1;
    let mut j: u32 = 0;
    while j < k
        invariant
            j <= k <= 18,
            acc as int == pow10(j as nat),
        decreases k - j,
    {
        proof {
            lemma_pow10_mono(j as nat, 17);
            reveal_with_fuel(pow10, 20);
            assert(pow10(17) == 100_000_000_000_000_000);
        }
        acc = acc * 10;
        j += 1;
    }
    acc
}

/// An exact decimal number: `mantissa / 10^scale`.  It stands for the
/// string-encoded fractional sizes that the exchange sends, which must
/// round-trip without loss.
#[derive(Clone, Copy, PartialEq, Eq, Structural, Debug)]
pub struct Decimal {
    pub mantissa: i64,
    pub scale: u32,
}

impl Decimal {
    /// Scales beyond eighteen fractional digits are never produced,
    /// since the mantissa itself stops at nineteen digits.
    pub open spec fn wf(self) -> bool {
        self.scale <= 18
    }
}

/// The digits of `m` left-padded with zeros to exactly `k` places.
pub open spec fn sp_padded(m: int, k: nat) -> Seq<char>
    decreases k,
{
    if k == 0 {
        Seq::empty()
    } else {
        sp_padded(m / 10, (k - 1) as nat).push(digit_char(m % 10))
    }
}

pub proof fn lemma_padded(m: int, k: nat)
    requires
        0 <= m < pow10(k),
    ensures
        sp_padded(m, k).len() == k,
        all_digits(sp_padded(m, k)),
        digits_val(sp_padded(m, k)) == m,
    decreases k,
{
    if k == 0 {
        assert(digits_val(Seq::<char>::empty()) == 0);
    } else {
        vstd::arithmetic::div_mod::lemma_fundamental_div_mod(m, 10);
        assert(0 <= m % 10 <= 9);
        if m / 10 >= pow10((k - 1) as nat) {
            assert(m >= 10 * (m / 10));
            assert(false);
        }
        lemma_padded(m / 10, (k - 1) as nat);
        let s = sp_padded(m, k);
        assert(s.drop_last() =~= sp_padded(m / 10, (k - 1) as nat));
        assert(s.last() == digit_char(m % 10));
        assert(digit_val(digit_char(m % 10)) == m % 10);
        assert(digits_val(s) == digits_val(s.drop_last()) * 10 + digit_val(s.last()));
    }
}

/// Concatenating digit runs multiplies the left run's value by ten to
/// the length of the right run.
pub proof fn lemma_digits_val_concat(a: Seq<char>, b: Seq<char>)
    ensures
        digits_val(a + b) == digits_val(a) * pow10(b.len()) + digits_val(b),
    decreases b.len(),
{
    if b.len() == 0 {
        assert(a + b =~= a);
    } else {
        let b0 = b.drop_last();
        lemma_digits_val_concat(a, b0);
        assert((a + b).drop_last() =~= a + b0);
        assert((a + b).last() == b.last());
        assert(digits_val(a + b) == digits_val(a + b0) * 10 + digit_val(b.last()));
        assert(pow10(b.len()) == 10 * pow10(b0.len()));
        assert((digits_val(a) * pow10(b0.len()) + digits_val(b0)) * 10 == digits_val(a) * (
        pow10(b0.len()) * 10) + digits_val(b0) * 10) by (nonlinear_arith);
    }
}

/// The first index at or after `i` that holds a dot, or the length.
pub open spec fn sp_first_dot(s: Seq<char>, i: int) -> int
    decreases s.len() - i,
{
    if 0 <= i < s.len() {
        if s[i] == '.' {
            i
        } else {
            sp_first_dot(s, i + 1)
        }
    } else {
        s.len() as int
    }
}

pub proof fn lemma_first_dot_is(s: Seq<char>, i: int, j: int)
    requires
        0 <= i <= j <= s.len(),
        forall|k: int| i <= k < j ==> s[k] != '.',
        j < s.len() ==> s[j] == '.',
    ensures
        sp_first_dot(s, i) == j,
    decreases j - i,
{
    if i < j {
        lemma_first_dot_is(s, i + 1, j);
    }
}

/// A signed digit run as a 64-bit value, refused when out of range.
pub open spec fn sp_signed_mag(ds: Seq<char>, neg: bool) -> Option<int> {
    if ds.len() == 0 || !all_digits(ds) {
        None
    } else {
        let m = digits_val(ds);
        if neg {
            if m <= 0x8000_0000_0000_0000 {
                Some(-m)
            } else {
                None
            }
        } else {
            if m <= 0x7fff_ffff_ffff_ffff {
                Some(m)
            } else {
                None
            }
        }
    }
}

/// What a string-encoded decimal number means: an optional sign, one
/// or more integer digits, and an optional dot followed by one to
/// eighteen fractional digits, read as an exact mantissa and scale.
pub open spec fn sp_parse_decimal(v: Seq<char>) -> Option<Decimal> {
    let neg = v.len() > 0 && v[0] == '-';
    let w = if v.len() > 0 && (v[0] == '-' || v[0] == '+') {
        v.drop_first()
    } else {
        v
    };
    let di = sp_first_dot(w, 0);
    if di == w.len() {
        match sp_signed_mag(w, neg) {
            Some(val) => Some(Decimal { mantissa: val as i64, scale: 0 }),
            None => None,
        }
    } else {
        let ip = w.take(di);
        let fp = w.skip(di + 1);
        if ip.len() == 0 || fp.len() == 0 || fp.len() > 18 {
            None
        } else {
            match sp_signed_mag(ip + fp, neg) {
                Some(val) => Some(Decimal { mantissa: val as i64, scale: fp.len() as u32 }),
                None => None,
            }
        }
    }
}

fn apply_sign(m: u64, neg: bool) -> (r: i64)
    requires
        neg ==> m <= 0x8000_0000_0000_0000,
        !neg ==> m <= 0x7fff_ffff_ffff_ffff,
    ensures
        r as int == if neg {
            -(m as int)
        } else {
            m as int
        },
{
    if neg {
        if m == 0x8000_0000_0000_0000u64 {
            i64::MIN
        } else {
            -(m as i64)
        }
    } else {
        m as i64
    }
}

pub fn parse_decimal_chars(v: &Vec<char>) -> (r: Option<Decimal>)
    ensures
        r == sp_parse_decimal(v@),
{
    let n = v.len();
    if n == 0 {
        return None;
    }
    let c0 = v[0];
    let neg: bool = c0 == '-';
    let signed: bool = c0 == '-' || c0 == '+';
    let start: usize = if signed {
        1
    } else {
        0
    };
    let w = crate::chars::copy_range(v, start, n);
    proof {
        if signed {
            assert(w@ =~= v@.drop_first());
        } else {
            assert(w@ =~= v@);
        }
    }
    let wn = w.len();
    let mut fd: usize = 0;
    while fd < wn && w[fd] != '.'
        invariant
            fd <= wn == w@.len(),
            forall|k: int| 0 <= k < fd ==> w@[k] != '.',
        decreases wn - fd,
    {
        fd += 1;
    }
    proof {
        lemma_first_dot_is(w@, 0, fd as int);
    }
    let bound: u64 = if neg {
        0x8000_0000_0000_0000
    } else {
        0x7fff_ffff_ffff_ffff
    };
    if fd == wn {
        proof {
            assert(w@.skip(0) =~= w@);
        }
        match parse_digits_bounded(&w, 0, bound) {
            None => None,
            Some(m) => Some(Decimal { mantissa: apply_sign(m, neg), scale: 0 }),
        }
    } else {
        if fd == 0 || fd + 1 == wn || wn - fd - 1 > 18 {
            return None;
        }
        let mut cs = crate::chars::copy_range(&w, 0, fd);
        let mut tail = crate::chars::copy_range(&w, fd + 1, wn);
        cs.append(&mut tail);
        proof {
            assert(cs@ =~= w@.take(fd as int) + w@.skip(fd + 1));
            assert(cs@.skip(0) =~= cs@);
        }
        match parse_digits_bounded(&cs, 0, bound) {
            None => None,
            Some(m) => Some(Decimal { mantissa: apply_sign(m, neg), scale: (wn - fd - 1) as u32 }),
        }
    }
}

/// Reads a string-encoded decimal, as the wire format carries sizes.
pub fn str_to_decimal(s: &str) -> (r: Option<Decimal>)
    ensures
        r == sp_parse_decimal(s@),
{
    let v = crate::chars::to_char_vec(s);
    parse_decimal_chars(&v)
}

/// The canonical rendering of a decimal: the integer part, then a dot
/// and exactly `scale` fractional digits when the scale is positive.
pub open spec fn sp_decimal_str(d: Decimal) -> Seq<char> {
    if d.scale == 0 {
        sp_i64_str(d.mantissa as int)
    } else {
        let mag = if d.mantissa < 0 {
            -(d.mantissa as int)
        } else {
            d.mantissa as int
        };
        let p = pow10(d.scale as nat);
        let sign = if d.mantissa < 0 {
            seq!['-']
        } else {
            Seq::<char>::empty()
        };
        sign + sp_digits_str(mag / p) + seq!['.'] + sp_padded(mag % p, d.scale as nat)
    }
}

pub fn decimal_to_string(d: Decimal) -> (r: String)
    requires
        d.wf(),
    ensures
        r@ == sp_decimal_str(d),
{
    if d.scale == 0 {
        return i64_to_string(d.mantissa);
    }
    let mag: u64 = if d.mantissa >= 0 {
        d.mantissa as u64
    } else {
        (-(d.mantissa as i128)) as u64
    };
    let p = pow10_u64(d.scale);
    proof {
        lemma_pow10_pos(d.scale as nat);
        vstd::arithmetic::div_mod::lemma_fundamental_div_mod(mag as int, p as int);
        vstd::arithmetic::div_mod::lemma_div_pos_is_pos(mag as int, p as int);
        vstd::arithmetic::div_mod::lemma_mod_bound(mag as int, p as int);
    }
    let ip: u64 = mag / p;
    let fp: u64 = mag % p;
    let mut out: Vec<char> = Vec::new();
    if d.mantissa < 0 {
        out.push('-');
    }
    let mut ipd = digits_vec(ip);
    out.append(&mut ipd);
    out.push('.');
    let mut fpd = padded_vec(fp, d.scale);
    out.append(&mut fpd);
    proof {
        let sign: Seq<char> = if d.mantissa < 0 {
            seq!['-']
        } else {
            Seq::<char>::empty()
        };
        assert(out@ =~= sign + sp_digits_str(ip as int) + seq!['.'] + sp_padded(
            fp as int,
            d.scale as nat,
        ));
    }
    crate::chars::chars_to_string(&out)
}

pub fn padded_vec(m: u64, k: u32) -> (r: Vec<char>)
    ensures
        r@ == sp_padded(m as int, k as nat),
    decreases k,
{
    if k == 0 {
        let r: Vec<char> = Vec::new();
        proof {
            assert(r@ =~= sp_padded(m as int, 0));
        }
        r
    } else {
        proof {
            vstd::arithmetic::div_mod::lemma_fundamental_div_mod(m as int, 10);
        }
        let mut r = padded_vec(m / 10, k - 1);
        r.push(digit_char_x(m % 10));
        r
    }
}

/// Encoding a decimal and decoding the result recovers the mantissa
/// and the scale exactly, for every well-formed decimal.
pub proof fn lemma_decimal_round_trip(d: Decimal)
    requires
        d.wf(),
    ensures
        sp_parse_decimal(sp_decimal_str(d)) == Some(d),
{
    let neg = d.mantissa < 0;
    let mag = if neg {
        -(d.mantissa as int)
    } else {
        d.mantissa as int
    };
    if d.scale == 0 {
        lemma_digits_str_val(mag);
        let v = sp_decimal_str(d);
        let w = if neg {
            v.drop_first()
        } else {
            v
        };
        assert(w =~= sp_digits_str(mag));
        assert(forall|k: int| 0 <= k < w.len() ==> w[k] != '.');
        lemma_first_dot_is(w, 0, w.len() as int);
        if neg {
            assert(v[0] == '-');
        } else {
            assert(is_digit(v[0]));
            assert(v[0] != '-' && v[0] != '+');
        }
    } else {
        let p = pow10(d.scale as nat);
        lemma_pow10_pos(d.scale as nat);
        vstd::arithmetic::div_mod::lemma_fundamental_div_mod(mag, p);
        vstd::arithmetic::div_mod::lemma_div_pos_is_pos(mag, p);
        vstd::arithmetic::div_mod::lemma_mod_bound(mag, p);
        let a = sp_digits_str(mag / p);
        let b = sp_padded(mag % p, d.scale as nat);
        lemma_digits_str_val(mag / p);
        lemma_padded(mag % p, d.scale as nat);
        let v = sp_decimal_str(d);
        let w = if neg {
            v.drop_first()
        } else {
            v
        };
        assert(w =~= a + seq!['.'] + b);
        if neg {
            assert(v[0] == '-');
        } else {
            assert(w[0] == a[0]);
            assert(is_digit(v[0]));
            assert(v[0] != '-' && v[0] != '+');
        }
        assert(forall|k: int| 0 <= k < a.len() ==> w[k] == a[k] && is_digit(a[k]) && #[trigger] w[k]
            != '.');
        assert(w[a.len() as int] == '.');
        lemma_first_dot_is(w, 0, a.len() as int);
        let ip = w.take(a.len() as int);
        let fp = w.skip(a.len() as int + 1);
        assert(ip =~= a);
        assert(fp =~= b);
        assert(ip + fp =~= a + b);
        lemma_digits_val_concat(a, b);
        assert(digits_val(a + b) == (mag / p) * pow10(b.len()) + (mag % p));
        assert(pow10(b.len()) == p);
        assert(p * (mag / p) == (mag / p) * p) by (nonlinear_arith);
        assert((mag / p) * p + (mag % p) == mag);
        assert(digits_val(a + b) == mag);
        assert(all_digits(a + b)) by {
            assert(forall|k: int| 0 <= k < a.len() ==> is_digit(#[trigger] (a + b)[k]));
            assert(forall|k: int|
                a.len() <= k < (a + b).len() ==> (a + b)[k] == b[k - a.len()] && is_digit(
                    #[trigger] (a + b)[k],
                ));
        }
        if neg {
            assert(mag <= 0x8000_0000_0000_0000);
            assert(sp_signed_mag(ip + fp, true) == Some(-mag));
        } else {
            assert(mag <= 0x7fff_ffff_ffff_ffff);
            assert(sp_signed_mag(ip + fp, false) == Some(mag));
        }
        assert(fp.len() == d.scale);
    }
}

} // verus!
