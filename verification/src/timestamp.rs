use vstd::prelude::*;
use crate::number::{
    digit_val, digits_val, is_digit, lemma_digits_val_concat, lemma_padded, pow10, sp_padded,
};

verus! {

/// A calendar instant in UTC, the normalized form of the exchange's
/// timestamp strings (`2019-03-28T09:28:07.980Z`).
#[derive(Clone, Copy, PartialEq, Eq, Structural, Debug)]
pub struct Timestamp {
    pub year: u16,
    pub month: u8,
    pub day: u8,
    pub hour: u8,
    pub minute: u8,
    pub second: u8,
    pub millisecond: u16,
}

pub open spec fn sp_is_leap_year(y: int) -> bool {
    (y % 4 == 0 && y % 100 != 0) || y % 400 == 0
}

pub open spec fn sp_days_in_month(y: int, m: int) -> int {
    if m == 2 {
        if sp_is_leap_year(y) {
            29
        } else {
            28
        }
    } else if m == 4 || m == 6 || m == 9 || m == 11 {
        30
    } else {
        31
    }
}

impl Timestamp {
    /// A real calendar date and a real time of day.
    pub open spec fn wf(self) -> bool {
        &&& self.year <= 9999
        &&& 1 <= self.month <= 12
        &&& 1 <= self.day <= sp_days_in_month(self.year as int, self.month as int)
        &&& self.hour <= 23
        &&& self.minute <= 59
        &&& self.second <= 59
        &&& self.millisecond <= 999
    }
}

pub fn is_leap_year(y: u16) -> (r: bool)
    ensures
        r == sp_is_leap_year(y as int),
{
    (y % 4 == 0 && y % 100 != 0) || y % 400 == 0
}

pub fn days_in_month(y: u16, m: u8) -> (r: u8)
    ensures
        r as int == sp_days_in_month(y as int, m as int),
{
    if m == 2 {
        if is_leap_year(y) {
            29
        } else {
            28
        }
    } else if m == 4 || m == 6 || m == 9 || m == 11 {
        30
    } else {
        31
    }
}

/// The value of the two digits at `i`.
pub open spec fn d2(v: Seq<char>, i: int) -> int {
    digit_val(v[i]) * 10 + digit_val(v[i + 1])
}

/// Both characters at `i` and `i + 1` are digits.
pub open spec fn dig2(v: Seq<char>, i: int) -> bool {
    is_digit(v[i]) && is_digit(v[i + 1])
}

/// What an exchange timestamp string means: `YYYY-MM-DDTHH:MM:SSZ`,
/// with an optional `.mmm` millisecond part before the `Z`, naming a
/// real calendar instant; anything else is refused.
pub open spec fn sp_parse_timestamp(v: Seq<char>) -> Option<Timestamp> {
    if v.len() != 20 && v.len() != 24 {
        None
    } else if !(dig2(v, 0) && dig2(v, 2) && v[4] == '-' && dig2(v, 5) && v[7] == '-' && dig2(v, 8)
        && v[10] == 'T' && dig2(v, 11) && v[13] == ':' && dig2(v, 14) && v[16] == ':' && dig2(
        v,
        17,
    )) {
        None
    } else if v.len() == 20 && v[19] != 'Z' {
        None
    } else if v.len() == 24 && !(v[19] == '.' && is_digit(v[20]) && dig2(v, 21) && v[23] == 'Z') {
        None
    } else {
        let t = Timestamp {
            year: (d2(v, 0) * 100 + d2(v, 2)) as u16,
            month: d2(v, 5) as u8,
            day: d2(v, 8) as u8,
            hour: d2(v, 11) as u8,
            minute: d2(v, 14) as u8,
            second: d2(v, 17) as u8,
            millisecond: if v.len() == 24 {
                (digit_val(v[20]) * 100 + d2(v, 21)) as u16
            } else {
                0
            },
        };
        if t.wf() {
            Some(t)
        } else {
            None
        }
    }
}

fn digit_at(v: &Vec<char>, i: usize) -> (r: Option<u32>)
    requires
        i < v@.len(),
    ensures
        match r {
            Some(d) => is_digit(v@[i as int]) && d == digit_val(v@[i as int]),
            None => !is_digit(v@[i as int]),
        },
{
    let cu = v[i] as u32;
    if 48 <= cu && cu <= 57 {
        Some(cu - 48)
    } else {
        None
    }
}

fn d2_at(v: &Vec<char>, i: usize) -> (r: Option<u32>)
    requires
        i + 1 < v@.len(),
    ensures
        match r {
            Some(d) => dig2(v@, i as int) && d == d2(v@, i as int),
            None => !dig2(v@, i as int),
        },
{
    let n: usize = v.len();
    assert(i + 1 < n);
    match (digit_at(v, i), digit_at(v, i + 1)) {
        (Some(a), Some(b)) => Some(a * 10 + b),
        _ => None,
    }
}

pub fn parse_timestamp_chars(v: &Vec<char>) -> (r: Option<Timestamp>)
    ensures
        r == sp_parse_timestamp(v@),
{
    let n = v.len();
    if n != 20 && n != 24 {
        return None;
    }
    if !(v[4] == '-' && v[7] == '-' && v[10] == 'T' && v[13] == ':' && v[16] == ':') {
        return None;
    }
    let (yh, yl, month, day, hour, minute, second) = match (
        d2_at(v, 0),
        d2_at(v, 2),
        d2_at(v, 5),
        d2_at(v, 8),
        d2_at(v, 11),
        d2_at(v, 14),
        d2_at(v, 17),
    ) {
        (Some(a), Some(b), Some(c), Some(d), Some(e), Some(f), Some(g)) => (a, b, c, d, e, f, g),
        _ => {
            return None;
        },
    };
    let millisecond: u32;
    if n == 20 {
        if v[19] != 'Z' {
            return None;
        }
        millisecond = 0;
    } else {
        if !(v[19] == '.' && v[23] == 'Z') {
            return None;
        }
        match (digit_at(v, 20), d2_at(v, 21)) {
            (Some(a), Some(b)) => {
                millisecond = a * 100 + b;
            },
            _ => {
                return None;
            },
        }
    }
    let year: u32 = yh * 100 + yl;
    let t = Timestamp {
        year: year as u16,
        month: month as u8,
        day: day as u8,
        hour: hour as u8,
        minute: minute as u8,
        second: second as u8,
        millisecond: millisecond as u16,
    };
    if !(1 <= t.month && t.month <= 12) {
        return None;
    }
    if !(1 <= t.day && t.day <= days_in_month(t.year, t.month)) {
        return None;
    }
    if !(t.hour <= 23 && t.minute <= 59 && t.second <= 59) {
        return None;
    }
    Some(t)
}

/// Reads an exchange timestamp string into its calendar instant.
pub fn str_to_timestamp(s: &str) -> (r: Option<Timestamp>)
    ensures
        r == sp_parse_timestamp(s@),
{
    let v = crate::chars::to_char_vec(s);
    parse_timestamp_chars(&v)
}

/// The canonical rendering: date, time and exactly three millisecond
/// digits, as the exchange writes its response times.
pub open spec fn sp_timestamp_str(t: Timestamp) -> Seq<char> {
    sp_padded(t.year as int, 4) + seq!['-'] + sp_padded(t.month as int, 2) + seq!['-'] + sp_padded(
        t.day as int,
        2,
    ) + seq!['T'] + sp_padded(t.hour as int, 2) + seq![':'] + sp_padded(t.minute as int, 2)
        + seq![':'] + sp_padded(t.second as int, 2) + seq!['.'] + sp_padded(
        t.millisecond as int,
        3,
    ) + seq!['Z']
}

impl Timestamp {
    /// Renders the instant with millisecond precision and a `Z`
    /// offset, the same shape the wire format uses.
    pub fn to_rfc3339_millis(&self) -> (r: String)
        requires
            self.wf(),
        ensures
            r@ == sp_timestamp_str(*self),
    {
        let mut out: Vec<char> = Vec::new();
        let mut part = crate::number::padded_vec(self.year as u64, 4);
        out.append(&mut part);
        out.push('-');
        let mut part = crate::number::padded_vec(self.month as u64, 2);
        out.append(&mut part);
        out.push('-');
        let mut part = crate::number::padded_vec(self.day as u64, 2);
        out.append(&mut part);
        out.push('T');
        let mut part = crate::number::padded_vec(self.hour as u64, 2);
        out.append(&mut part);
        out.push(':');
        let mut part = crate::number::padded_vec(self.minute as u64, 2);
        out.append(&mut part);
        out.push(':');
        let mut part = crate::number::padded_vec(self.second as u64, 2);
        out.append(&mut part);
        out.push('.');
        let mut part = crate::number::padded_vec(self.millisecond as u64, 3);
        out.append(&mut part);
        out.push('Z');
        proof {
            assert(out@ =~= sp_timestamp_str(*self));
        }
        crate::chars::chars_to_string(&out)
    }
}

proof fn lemma_dv2(a: Seq<char>)
    requires
        a.len() == 2,
    ensures
        digits_val(a) == digit_val(a[0]) * 10 + digit_val(a[1]),
{
    assert(a.drop_last() =~= seq![a[0]]);
    assert(seq![a[0]].drop_last() =~= Seq::<char>::empty());
    assert(digits_val(Seq::<char>::empty()) == 0);
    assert(digits_val(seq![a[0]]) == digit_val(a[0]));
    assert(a.last() == a[1]);
}

/// Rendering a valid instant and reading the result back recovers
/// every calendar field exactly.
pub proof fn lemma_timestamp_round_trip(t: Timestamp)
    requires
        t.wf(),
    ensures
        sp_parse_timestamp(sp_timestamp_str(t)) == Some(t),
{
    reveal_with_fuel(pow10, 5);
    let py = sp_padded(t.year as int, 4);
    let pmo = sp_padded(t.month as int, 2);
    let pd = sp_padded(t.day as int, 2);
    let ph = sp_padded(t.hour as int, 2);
    let pmi = sp_padded(t.minute as int, 2);
    let ps = sp_padded(t.second as int, 2);
    let pms = sp_padded(t.millisecond as int, 3);
    lemma_padded(t.year as int, 4);
    lemma_padded(t.month as int, 2);
    lemma_padded(t.day as int, 2);
    lemma_padded(t.hour as int, 2);
    lemma_padded(t.minute as int, 2);
    lemma_padded(t.second as int, 2);
    lemma_padded(t.millisecond as int, 3);
    let v = sp_timestamp_str(t);
    assert(v.len() == 24);
    assert(v[0] == py[0] && v[1] == py[1] && v[2] == py[2] && v[3] == py[3]);
    assert(v[4] == '-');
    assert(v[5] == pmo[0] && v[6] == pmo[1]);
    assert(v[7] == '-');
    assert(v[8] == pd[0] && v[9] == pd[1]);
    assert(v[10] == 'T');
    assert(v[11] == ph[0] && v[12] == ph[1]);
    assert(v[13] == ':');
    assert(v[14] == pmi[0] && v[15] == pmi[1]);
    assert(v[16] == ':');
    assert(v[17] == ps[0] && v[18] == ps[1]);
    assert(v[19] == '.');
    assert(v[20] == pms[0] && v[21] == pms[1] && v[22] == pms[2]);
    assert(v[23] == 'Z');
    lemma_dv2(pmo);
    lemma_dv2(pd);
    lemma_dv2(ph);
    lemma_dv2(pmi);
    lemma_dv2(ps);
    assert(d2(v, 5) == t.month as int);
    assert(d2(v, 8) == t.day as int);
    assert(d2(v, 11) == t.hour as int);
    assert(d2(v, 14) == t.minute as int);
    assert(d2(v, 17) == t.second as int);
    let y01 = py.subrange(0, 2);
    let y23 = py.subrange(2, 4);
    assert(py =~= y01 + y23);
    lemma_digits_val_concat(y01, y23);
    lemma_dv2(y01);
    lemma_dv2(y23);
    assert(pow10(2) == 100);
    assert(d2(v, 0) == digits_val(y01));
    assert(d2(v, 2) == digits_val(y23));
    assert(d2(v, 0) * 100 + d2(v, 2) == t.year as int);
    let m0 = pms.subrange(0, 1);
    let m12 = pms.subrange(1, 3);
    assert(pms =~= m0 + m12);
    lemma_digits_val_concat(m0, m12);
    lemma_dv2(m12);
    assert(m0.drop_last() =~= Seq::<char>::empty());
    assert(digits_val(m0) == digit_val(pms[0]));
    assert(digit_val(v[20]) * 100 + d2(v, 21) == t.millisecond as int);
}

} // verus!
