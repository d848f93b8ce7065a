//! Display values: the text form of a fixed-point score (`"30.5"`) and its
//! parsing back into the scaled integer (`3_050_000`).
use vstd::prelude::*;
use crate::text::{lemma_decimal_digits, chars_of, decimal, digit_char, digits_value, all_digits, is_digit, push_decimal, string_of, trim, trim_chars, concat3, is_ws, trim_start, trim_end};

verus! {

/// `10^n`.
pub open spec fn pow10(n: nat) -> nat
    decreases n,
{
    if n == 0 {
        1
    } else {
        10 * pow10((n - 1) as nat)
    }
}

/// `s` without its trailing `'0'` characters.
pub open spec fn strip_zeros(s: Seq<char>) -> Seq<char>
    decreases s.len(),
{
    if s.len() > 0 && s.last() == '0' {
        strip_zeros(s.drop_last())
    } else {
        s
    }
}

/// The five-digit, zero-padded text of a fraction `f < 100000`.
pub open spec fn pad5(f: nat) -> Seq<char> {
    seq![
        digit_char((f / 10000) as int),
        digit_char((f / 1000 % 10) as int),
        digit_char((f / 100 % 10) as int),
        digit_char((f / 10 % 10) as int),
        digit_char((f % 10) as int),
    ]
}

/// The magnitude of an integer.
pub open spec fn magnitude(v: int) -> nat {
    if v < 0 {
        (-v) as nat
    } else {
        v as nat
    }
}

/// The display text of a scaled score `v` (`v / 100000` with at most five
/// decimals, trailing zeros and a bare trailing point removed): `"30.5"`,
/// `"-0.00001"`, `"7"`.
pub open spec fn score_text(v: int) -> Seq<char> {
    let m = magnitude(v);
    let ip = m / 100000;
    let fp = m % 100000;
    let sign: Seq<char> = if v < 0 { seq!['-'] } else { Seq::empty() };
    let frac: Seq<char> = if fp == 0 { Seq::empty() } else { seq!['.'] + strip_zeros(pad5(fp)) };
    sign + decimal(ip) + frac
}

/// Formats a scaled score for display.
pub fn fmt_score(v: i64) -> (s: String)
    ensures
        s@ == score_text(v as int),
{
    let m: u64 = if v < 0 {
        if v == i64::MIN { 9223372036854775808u64 } else { (-v) as u64 }
    } else {
        v as u64
    };
    assert(m as int == magnitude(v as int));
    let ip = m / 100000;
    let fp = m % 100000;
    let mut out: Vec<char> = Vec::new();
    if v < 0 {
        out.push('-');
    }
    push_decimal(&mut out, ip);
    let ghost sign: Seq<char> = if v < 0 { seq!['-'] } else { Seq::empty() };
    assert(out@ =~= sign + decimal(ip as nat));
    if fp != 0 {
        out.push('.');
        let mut d: Vec<char> = Vec::new();
        d.push((48u8 + (fp / 10000) as u8) as char);
        d.push((48u8 + (fp / 1000 % 10) as u8) as char);
        d.push((48u8 + (fp / 100 % 10) as u8) as char);
        d.push((48u8 + (fp / 10 % 10) as u8) as char);
        d.push((48u8 + (fp % 10) as u8) as char);
        assert(d@ =~= pad5(fp as nat));
        let mut k: usize = 5;
        assert(d@.take(5) =~= d@);
        while k > 0 && d[k - 1] == '0'
            invariant
                k <= 5,
                d@.len() == 5,
                strip_zeros(d@) == strip_zeros(d@.take(k as int)),
            decreases k,
        {
            assert(d@.take(k as int).drop_last() =~= d@.take(k - 1));
            k = k - 1;
        }
        assert(strip_zeros(d@.take(k as int)) == d@.take(k as int));
        let mut i: usize = 0;
        let ghost before = out@;
        while i < k
            invariant
                i <= k <= 5,
                d@.len() == 5,
                out@ == before + d@.take(i as int),
            decreases k - i,
        {
            out.push(d[i]);
            i = i + 1;
            assert(d@.take(i as int) =~= d@.take(i - 1).push(d@[i - 1]));
        }
        assert(out@ =~= sign + decimal(ip as nat) + (seq!['.'] + strip_zeros(pad5(fp as nat))));
    } else {
        assert(out@ =~= sign + decimal(ip as nat) + Seq::<char>::empty());
    }
    string_of(&out)
}

/// The length of the sign prefix (`-` or `+`) of `t`.
pub open spec fn sign_len(t: Seq<char>) -> int {
    if t.len() > 0 && (t[0] == '-' || t[0] == '+') {
        1
    } else {
        0
    }
}

/// `t` without its sign prefix.
pub open spec fn unsigned_part(t: Seq<char>) -> Seq<char> {
    t.subrange(sign_len(t), t.len() as int)
}

/// The index of the first `'.'` of `b`, or `b.len()` when there is none.
pub open spec fn first_dot(b: Seq<char>) -> int
    decreases b.len(),
{
    if b.len() == 0 {
        0
    } else if b[0] == '.' {
        0
    } else {
        1 + first_dot(b.subrange(1, b.len() as int))
    }
}

/// The digits before the decimal point.
pub open spec fn int_digits(b: Seq<char>) -> Seq<char> {
    b.take(first_dot(b))
}

/// The digits after the decimal point (empty when there is no point).
pub open spec fn frac_digits(b: Seq<char>) -> Seq<char> {
    if first_dot(b) < b.len() {
        b.subrange(first_dot(b) + 1, b.len() as int)
    } else {
        Seq::empty()
    }
}

/// `b` is a plain decimal: digits, optionally a point and more digits, with at
/// least one digit in all.
pub open spec fn is_plain_decimal(b: Seq<char>) -> bool {
    &&& all_digits(int_digits(b))
    &&& all_digits(frac_digits(b))
    &&& int_digits(b).len() + frac_digits(b).len() > 0
}

/// ASCII lower case.
pub open spec fn ascii_lower(c: char) -> char {
    if 'A' <= c <= 'Z' {
        ((c as u32) + 32) as char
    } else {
        c
    }
}

/// `a` equals the lower-case word `w`, ignoring ASCII case.
pub open spec fn eq_ignore_case(a: Seq<char>, w: Seq<char>) -> bool {
    &&& a.len() == w.len()
    &&& forall|k: int| 0 <= k < a.len() ==> ascii_lower(#[trigger] a[k]) == w[k]
}

/// `b` spells an infinity or a NaN, which the float syntax accepts.
pub open spec fn is_inf_or_nan(b: Seq<char>) -> bool {
    ||| eq_ignore_case(b, seq!['n', 'a', 'n'])
    ||| eq_ignore_case(b, seq!['i', 'n', 'f'])
    ||| eq_ignore_case(b, seq!['i', 'n', 'f', 'i', 'n', 'i', 't', 'y'])
}

/// `'{t}' ...` — the error messages quote the trimmed input.
pub open spec fn quoted(t: Seq<char>, tail: Seq<char>) -> Seq<char> {
    "'"@ + t + tail
}

pub open spec fn msg_exponent(t: Seq<char>) -> Seq<char> {
    quoted(t, "' 지수 표기는 지원되지 않습니다. 소수 표기를 사용하세요 (예: 0.000001)"@)
}

pub open spec fn msg_not_number(t: Seq<char>) -> Seq<char> {
    quoted(t, "' 숫자 변환 실패"@)
}

pub open spec fn msg_not_finite(t: Seq<char>) -> Seq<char> {
    quoted(t, "' 유한한 숫자가 아닙니다"@)
}

pub open spec fn msg_out_of_range(t: Seq<char>) -> Seq<char> {
    quoted(t, "' 허용 범위(±10억)를 초과합니다"@)
}

pub open spec fn msg_too_many_decimals(t: Seq<char>) -> Seq<char> {
    quoted(t, "' 소수점 5자리 초과 (최대 5자리)"@)
}

/// What a display value means: the trimmed text must be a plain decimal
/// (optionally signed, no exponent), of magnitude at most 10^9, with at most
/// five significant decimals; the result is the value scaled by 100000.
/// Every refusal carries its message.
pub open spec fn spec_parse_display(s: Seq<char>) -> Result<i64, Seq<char>> {
    let t = trim(s);
    let b = unsigned_part(t);
    if t.contains('e') || t.contains('E') {
        Err(msg_exponent(t))
    } else if !is_plain_decimal(b) {
        if is_inf_or_nan(b) {
            Err(msg_not_finite(t))
        } else {
            Err(msg_not_number(t))
        }
    } else {
        let ip = digits_value(int_digits(b));
        let fs = strip_zeros(frac_digits(b));
        if ip > 1_000_000_000 || (ip == 1_000_000_000 && fs.len() > 0) {
            Err(msg_out_of_range(t))
        } else if fs.len() > 5 {
            Err(msg_too_many_decimals(t))
        } else {
            let m: int = (ip * 100000 + digits_value(fs) * pow10((5 - fs.len()) as nat)) as int;
            Ok((if t.len() > 0 && t[0] == '-' { -m } else { m }) as i64)
        }
    }
}

proof fn lemma_first_dot(b: Seq<char>)
    ensures
        0 <= first_dot(b) <= b.len(),
        first_dot(b) < b.len() ==> b[first_dot(b)] == '.',
        forall|j: int| 0 <= j < first_dot(b) ==> b[j] != '.',
    decreases b.len(),
{
    if b.len() > 0 && b[0] != '.' {
        let r = b.subrange(1, b.len() as int);
        lemma_first_dot(r);
        assert forall|j: int| 0 <= j < first_dot(b) implies b[j] != '.' by {
            if j > 0 {
                assert(b[j] == r[j - 1]);
            }
        }
    }
}

proof fn lemma_first_dot_at(b: Seq<char>, p: int)
    requires
        0 <= p <= b.len(),
        p < b.len() ==> b[p] == '.',
        forall|j: int| 0 <= j < p ==> b[j] != '.',
    ensures
        first_dot(b) == p,
{
    lemma_first_dot(b);
    if first_dot(b) < p {
        assert(b[first_dot(b)] == '.');
    }
    if first_dot(b) > p {
        assert(b[p] != '.');
    }
}

proof fn lemma_digits_value_bound(s: Seq<char>)
    requires
        all_digits(s),
    ensures
        digits_value(s) < pow10(s.len()),
    decreases s.len(),
{
    if s.len() > 0 {
        assert(all_digits(s.drop_last())) by {
            assert forall|k: int| 0 <= k < s.drop_last().len() implies is_digit(#[trigger] s.drop_last()[k]) by {
                assert(s.drop_last()[k] == s[k]);
            }
        }
        lemma_digits_value_bound(s.drop_last());
        assert(is_digit(s[s.len() - 1]));
    }
}

proof fn lemma_all_digits_sub(s: Seq<char>, a: int, b: int)
    requires
        all_digits(s),
        0 <= a <= b <= s.len(),
    ensures
        all_digits(s.subrange(a, b)),
{
    assert forall|k: int| 0 <= k < b - a implies is_digit(#[trigger] s.subrange(a, b)[k]) by {
        assert(s.subrange(a, b)[k] == s[a + k]);
    }
}

proof fn lemma_strip_zeros_take(s: Seq<char>, k: int)
    requires
        0 <= k <= s.len(),
        forall|j: int| k <= j < s.len() ==> s[j] == '0',
        k == 0 || s[k - 1] != '0',
    ensures
        strip_zeros(s) == s.take(k),
    decreases s.len(),
{
    if s.len() > k {
        assert(s.drop_last().take(k) =~= s.take(k));
        lemma_strip_zeros_take(s.drop_last(), k);
    } else {
        assert(s.take(k) =~= s);
    }
}

/// Whether `t` holds an `e` or an `E`.
fn has_exponent(t: &Vec<char>) -> (r: bool)
    ensures
        r == (t@.contains('e') || t@.contains('E')),
{
    let mut i: usize = 0;
    while i < t.len()
        invariant
            i <= t@.len(),
            forall|k: int| 0 <= k < i ==> t@[k] != 'e' && t@[k] != 'E',
        decreases t@.len() - i,
    {
        if t[i] == 'e' || t[i] == 'E' {
            assert(t@.contains(t@[i as int]));
            return true;
        }
        i = i + 1;
    }
    false
}

/// Whether the characters of `t` from `sl` spell an infinity or a NaN.
fn spells_inf_or_nan(t: &Vec<char>, sl: usize) -> (r: bool)
    requires
        sl <= t@.len(),
    ensures
        r == is_inf_or_nan(t@.subrange(sl as int, t@.len() as int)),
{
    let ghost b = t@.subrange(sl as int, t@.len() as int);
    let bl = t.len() - sl;
    let ghost w3a = seq!['n', 'a', 'n'];
    let ghost w3b = seq!['i', 'n', 'f'];
    let ghost w8 = seq!['i', 'n', 'f', 'i', 'n', 'i', 't', 'y'];
    if bl != 3 && bl != 8 {
        return false;
    }
    let c0 = lower_ascii(t[sl]);
    let c1 = lower_ascii(t[sl + 1]);
    let c2 = lower_ascii(t[sl + 2]);
    assert(b[0] == t@[sl as int] && b[1] == t@[sl + 1] && b[2] == t@[sl + 2]);
    if bl == 3 {
        let r = (c0 == 'n' && c1 == 'a' && c2 == 'n') || (c0 == 'i' && c1 == 'n' && c2 == 'f');
        proof {
            if r {
                if c0 == 'n' {
                    assert(eq_ignore_case(b, w3a));
                } else {
                    assert(eq_ignore_case(b, w3b));
                }
            } else {
                if eq_ignore_case(b, w3a) {
                    assert(ascii_lower(b[0]) == w3a[0] && ascii_lower(b[1]) == w3a[1] && ascii_lower(b[2]) == w3a[2]);
                }
                if eq_ignore_case(b, w3b) {
                    assert(ascii_lower(b[0]) == w3b[0] && ascii_lower(b[1]) == w3b[1] && ascii_lower(b[2]) == w3b[2]);
                }
            }
        }
        r
    } else {
        let c3 = lower_ascii(t[sl + 3]);
        let c4 = lower_ascii(t[sl + 4]);
        let c5 = lower_ascii(t[sl + 5]);
        let c6 = lower_ascii(t[sl + 6]);
        let c7 = lower_ascii(t[sl + 7]);
        assert(b[3] == t@[sl + 3] && b[4] == t@[sl + 4] && b[5] == t@[sl + 5]);
        assert(b[6] == t@[sl + 6] && b[7] == t@[sl + 7]);
        let r = c0 == 'i' && c1 == 'n' && c2 == 'f' && c3 == 'i' && c4 == 'n' && c5 == 'i' && c6 == 't' && c7 == 'y';
        proof {
            if r {
                assert(eq_ignore_case(b, w8));
            } else if eq_ignore_case(b, w8) {
                assert(ascii_lower(b[0]) == w8[0] && ascii_lower(b[1]) == w8[1] && ascii_lower(b[2]) == w8[2]);
                assert(ascii_lower(b[3]) == w8[3] && ascii_lower(b[4]) == w8[4] && ascii_lower(b[5]) == w8[5]);
                assert(ascii_lower(b[6]) == w8[6] && ascii_lower(b[7]) == w8[7]);
            }
        }
        r
    }
}

/// The value of the digits `t[a..b]`, or `None` when it exceeds 10^9.
fn int_value_capped(t: &Vec<char>, a: usize, b: usize) -> (r: Option<u64>)
    requires
        a <= b <= t@.len(),
        all_digits(t@.subrange(a as int, b as int)),
    ensures
        match r {
            Some(v) => v == digits_value(t@.subrange(a as int, b as int)) && v <= 1_000_000_000,
            None => digits_value(t@.subrange(a as int, b as int)) > 1_000_000_000,
        },
{
    let ghost di = t@.subrange(a as int, b as int);
    let mut ip: u64 = 0;
    let mut k: usize = a;
    while k < b
        invariant
            a <= k <= b <= t@.len(),
            di == t@.subrange(a as int, b as int),
            all_digits(di),
            ip == digits_value(di.take(k - a)),
            ip <= 1_000_000_000,
        decreases b - k,
    {
        assert(di[k - a] == t@[k as int]);
        assert(is_digit(di[k - a]));
        let d = (t[k] as u32 - 48) as u64;
        assert(di.take(k - a + 1).drop_last() =~= di.take(k - a));
        let nv = ip * 10 + d;
        if nv > 1_000_000_000 {
            proof {
                lemma_digits_value_grows_prefix(di, k - a + 1);
            }
            return None;
        }
        ip = nv;
        k = k + 1;
    }
    assert(di.take(b - a) =~= di);
    Some(ip)
}

/// `digits_value(s.take(k)) <= digits_value(s)` for a string of digits.
proof fn lemma_digits_value_grows_prefix(s: Seq<char>, k: int)
    requires
        0 <= k <= s.len(),
        all_digits(s),
    ensures
        digits_value(s.take(k)) <= digits_value(s),
    decreases s.len() - k,
{
    if k < s.len() {
        lemma_digits_value_grows_prefix(s, k + 1);
        assert(s.take(k + 1).drop_last() =~= s.take(k));
    } else {
        assert(s.take(k) =~= s);
    }
}

/// The digits `t[a..b]` (at most five) read as a fraction scaled to five digits.
fn frac_value_scaled(t: &Vec<char>, a: usize, b: usize) -> (r: u64)
    requires
        a <= b <= t@.len(),
        b - a <= 5,
        all_digits(t@.subrange(a as int, b as int)),
    ensures
        r == digits_value(t@.subrange(a as int, b as int)) * pow10((5 - (b - a)) as nat),
        r < 100000,
{
    let ghost fs = t@.subrange(a as int, b as int);
    proof {
        lemma_pow10_5();
    }
    let mut fv: u64 = 0;
    let mut j: usize = a;
    while j < b
        invariant
            a <= j <= b <= t@.len(),
            b - a <= 5,
            fs == t@.subrange(a as int, b as int),
            all_digits(fs),
            fv == digits_value(fs.take(j - a)),
            fv < pow10((j - a) as nat),
            pow10((j - a) as nat) <= 100000,
            pow10(5) == 100000,
        decreases b - j,
    {
        assert(fs[j - a] == t@[j as int]);
        assert(is_digit(fs[j - a]));
        let d = (t[j] as u32 - 48) as u64;
        assert(fs.take(j - a + 1).drop_last() =~= fs.take(j - a));
        assert(pow10((j - a + 1) as nat) == 10 * pow10((j - a) as nat));
        proof {
            lemma_pow10_mono((j - a + 1) as nat, 5);
        }
        fv = fv * 10 + d;
        j = j + 1;
    }
    assert(fs.take(b - a) =~= fs);
    let flen = b - a;
    let mut scale: u64 = 1;
    let mut e: usize = flen;
    proof {
        lemma_pow10_mono(flen as nat, 5);
    }
    while e < 5
        invariant
            flen <= e <= 5,
            scale == pow10((e - flen) as nat),
            pow10(flen as nat) * pow10((5 - flen) as nat) == pow10(5),
            pow10(5) == 100000,
        decreases 5 - e,
    {
        assert(pow10((e + 1 - flen) as nat) == 10 * pow10((e - flen) as nat));
        proof {
            lemma_pow10_mono((e + 1 - flen) as nat, (5 - flen) as nat);
            lemma_pow10_mono((5 - flen) as nat, 5);
        }
        scale = scale * 10;
        e = e + 1;
    }
    proof {
        assert(fv * scale < 100000) by (nonlinear_arith)
            requires
                fv < pow10(flen as nat),
                scale == pow10((5 - flen) as nat),
                pow10(flen as nat) * pow10((5 - flen) as nat) == 100000;
    }
    fv * scale
}

/// The layout of a trimmed display value: sign length, end of the integer
/// digits, start of the fraction digits, and whether it is a plain decimal.
struct DecimalLayout {
    sl: usize,
    p: usize,
    fstart: usize,
    valid: bool,
}

/// Scans the sign, the integer digits, the point and the fraction digits of `t`.
fn scan_decimal(t: &Vec<char>) -> (l: DecimalLayout)
    ensures
        l.sl as int == sign_len(t@),
        l.valid == is_plain_decimal(unsigned_part(t@)),
        l.valid ==> {
            &&& l.sl <= l.p <= l.fstart <= t@.len()
            &&& int_digits(unsigned_part(t@)) == t@.subrange(l.sl as int, l.p as int)
            &&& frac_digits(unsigned_part(t@)) == t@.subrange(l.fstart as int, t@.len() as int)
        },
{
    let len = t.len();
    let ghost b = unsigned_part(t@);
    let sl: usize = if len > 0 && (t[0] == '-' || t[0] == '+') { 1 } else { 0 };
    assert(b =~= t@.subrange(sl as int, len as int));
    let mut p: usize = sl;
    while p < len && '0' <= t[p] && t[p] <= '9'
        invariant
            len == t@.len(),
            sl <= p <= len,
            forall|k: int| sl <= k < p ==> is_digit(#[trigger] t@[k]),
        decreases len - p,
    {
        p = p + 1;
    }
    let has_dot = p < len && t[p] == '.';
    let fstart: usize = if has_dot { p + 1 } else { p };
    let mut q: usize = fstart;
    while q < len && '0' <= t[q] && t[q] <= '9'
        invariant
            len == t@.len(),
            fstart <= q <= len,
            forall|k: int| fstart <= k < q ==> is_digit(#[trigger] t@[k]),
        decreases len - q,
    {
        q = q + 1;
    }
    proof {
        lemma_first_dot(b);
        assert forall|j: int| 0 <= j < p - sl implies b[j] != '.' by {
            assert(b[j] == t@[sl + j]);
            assert(is_digit(t@[sl + j]));
        }
        if has_dot || p == len {
            assert(p - sl < b.len() ==> b[p - sl] == t@[p as int]);
            lemma_first_dot_at(b, p - sl);
        }
    }
    let valid = q == len && (p > sl || q > fstart) && (has_dot || p == len);
    proof {
        if !valid {
            if p < len && !has_dot {
                assert(b[p - sl] == t@[p as int]);
                if first_dot(b) > p - sl {
                    assert(int_digits(b)[p - sl] == t@[p as int]);
                } else if first_dot(b) < p - sl {
                    assert(b[first_dot(b)] == t@[sl + first_dot(b)]);
                    assert(is_digit(t@[sl + first_dot(b)]));
                }
            } else if has_dot && q < len {
                assert(frac_digits(b)[q - fstart] == t@[q as int]);
            } else {
                assert(int_digits(b).len() == 0);
                assert(frac_digits(b).len() == 0);
            }
        } else {
            assert(int_digits(b) =~= t@.subrange(sl as int, p as int));
            assert(frac_digits(b) =~= t@.subrange(fstart as int, len as int));
            assert forall|k: int| 0 <= k < int_digits(b).len() implies is_digit(#[trigger] int_digits(b)[k]) by {
                assert(int_digits(b)[k] == t@[sl + k]);
            }
            assert forall|k: int| 0 <= k < frac_digits(b).len() implies is_digit(#[trigger] frac_digits(b)[k]) by {
                assert(frac_digits(b)[k] == t@[fstart + k]);
            }
        }
    }
    DecimalLayout { sl, p, fstart, valid }
}

/// The end of the significant fraction digits `t[a..]`: trailing zeros dropped.
fn strip_end(t: &Vec<char>, a: usize) -> (fe: usize)
    requires
        a <= t@.len(),
    ensures
        a <= fe <= t@.len(),
        strip_zeros(t@.subrange(a as int, t@.len() as int)) == t@.subrange(a as int, fe as int),
{
    let len = t.len();
    let ghost df = t@.subrange(a as int, len as int);
    let mut fe: usize = len;
    while fe > a && t[fe - 1] == '0'
        invariant
            len == t@.len(),
            a <= fe <= len,
            forall|j: int| fe <= j < len ==> t@[j] == '0',
        decreases fe - a,
    {
        fe = fe - 1;
    }
    proof {
        assert forall|j: int| fe - a <= j < df.len() implies df[j] == '0' by {
            assert(df[j] == t@[a + j]);
        }
        if fe > a {
            assert(df[fe - a - 1] == t@[fe - 1]);
        }
        lemma_strip_zeros_take(df, fe - a);
        assert(df.take(fe - a) =~= t@.subrange(a as int, fe as int));
    }
    fe
}

/// Parses a display value (`"30.5"`) into its scaled integer (`3050000`),
/// refusing exponents, non-numbers, non-finite values, magnitudes above 10^9
/// and more than five significant decimals.
pub fn parse_display_value(s: &str) -> (r: Result<i64, String>)
    ensures
        match r {
            Ok(v) => spec_parse_display(s@) == Ok::<i64, Seq<char>>(v),
            Err(m) => spec_parse_display(s@) == Err::<i64, Seq<char>>(m@),
        },
{
    let cs = chars_of(s);
    let t = trim_chars(&cs);
    let len = t.len();

    if has_exponent(&t) {
        return Err(concat3("'", &t, "' 지수 표기는 지원되지 않습니다. 소수 표기를 사용하세요 (예: 0.000001)"));
    }
    let l = scan_decimal(&t);
    if !l.valid {
        if spells_inf_or_nan(&t, l.sl) {
            return Err(concat3("'", &t, "' 유한한 숫자가 아닙니다"));
        } else {
            return Err(concat3("'", &t, "' 숫자 변환 실패"));
        }
    }
    let fe = strip_end(&t, l.fstart);
    let flen = fe - l.fstart;
    proof {
        lemma_all_digits_sub(t@.subrange(l.fstart as int, len as int), 0, fe - l.fstart);
        assert(t@.subrange(l.fstart as int, len as int).subrange(0, fe - l.fstart) =~= t@.subrange(l.fstart as int, fe as int));
    }
    let ip = match int_value_capped(&t, l.sl, l.p) {
        None => {
            return Err(concat3("'", &t, "' 허용 범위(±10억)를 초과합니다"));
        },
        Some(v) => v,
    };
    if ip == 1_000_000_000 && flen > 0 {
        return Err(concat3("'", &t, "' 허용 범위(±10억)를 초과합니다"));
    }
    if flen > 5 {
        return Err(concat3("'", &t, "' 소수점 5자리 초과 (최대 5자리)"));
    }
    let fv = frac_value_scaled(&t, l.fstart, fe);
    let m: u64 = ip * 100000 + fv;
    let neg = len > 0 && t[0] == '-';
    if neg {
        Ok(-(m as i64))
    } else {
        Ok(m as i64)
    }
}


proof fn lemma_strip_zeros_shape(s: Seq<char>)
    ensures
        strip_zeros(s).len() <= s.len(),
        strip_zeros(s) == s.take(strip_zeros(s).len() as int),
        strip_zeros(s).len() > 0 ==> strip_zeros(s).last() != '0',
        forall|j: int| strip_zeros(s).len() <= j < s.len() ==> s[j] == '0',
        strip_zeros(strip_zeros(s)) == strip_zeros(s),
    decreases s.len(),
{
    if s.len() > 0 && s.last() == '0' {
        lemma_strip_zeros_shape(s.drop_last());
        let r = strip_zeros(s.drop_last());
        assert(s.drop_last().take(r.len() as int) =~= s.take(r.len() as int));
        assert forall|j: int| r.len() <= j < s.len() implies s[j] == '0' by {
            if j < s.len() - 1 {
                assert(s.drop_last()[j] == s[j]);
            }
        }
    } else {
        assert(s.take(s.len() as int) =~= s);
    }
}

proof fn lemma_digits_value_trailing_zeros(s: Seq<char>, k: int)
    requires
        0 <= k <= s.len(),
        all_digits(s),
        forall|j: int| k <= j < s.len() ==> s[j] == '0',
    ensures
        digits_value(s) == digits_value(s.take(k)) * pow10((s.len() - k) as nat),
    decreases s.len(),
{
    if s.len() > k {
        let d = s.drop_last();
        assert forall|j: int| 0 <= j < d.len() implies is_digit(#[trigger] d[j]) by {
            assert(d[j] == s[j]);
        }
        assert forall|j: int| k <= j < d.len() implies d[j] == '0' by {
            assert(d[j] == s[j]);
        }
        lemma_digits_value_trailing_zeros(d, k);
        assert(d.take(k) =~= s.take(k));
        let c = (d.len() - k) as nat;
        assert((s.len() - k) as nat == c + 1);
        assert(pow10(c + 1) == 10 * pow10(c));
        assert(s.last() == '0');
        assert(('0' as int) == 48);
        assert(digits_value(s) == digits_value(d) * 10);
        assert(digits_value(s.take(k)) * pow10(c) * 10 == digits_value(s.take(k)) * (10 * pow10(c))) by (nonlinear_arith);
        assert(digits_value(s) == digits_value(s.take(k)) * pow10(c + 1));
        assert(pow10((s.len() - k) as nat) == pow10(c + 1));
    } else {
        assert(s.take(k) =~= s);
        assert(pow10(0) == 1);
        assert((s.len() - k) as nat == 0);
        assert(digits_value(s.take(k)) == digits_value(s));
        assert(digits_value(s) == digits_value(s.take(k)) * pow10((s.len() - k) as nat));
    }
}

proof fn lemma_pad5(f: nat)
    requires
        f < 100000,
    ensures
        pad5(f).len() == 5,
        all_digits(pad5(f)),
        digits_value(pad5(f)) == f,
        f != 0 ==> exists|j: int| 0 <= j < 5 && #[trigger] pad5(f)[j] != '0',
{
    let p = pad5(f);
    assert(digits_value(p.take(0)) == 0);
    assert(p.take(1).drop_last() =~= p.take(0));
    assert(p.take(2).drop_last() =~= p.take(1));
    assert(p.take(3).drop_last() =~= p.take(2));
    assert(p.take(4).drop_last() =~= p.take(3));
    assert(p.drop_last() =~= p.take(4));
    assert(digits_value(p.take(1)) == f / 10000);
    assert(digits_value(p.take(2)) == f / 10000 * 10 + f / 1000 % 10);
    assert(digits_value(p.take(3)) == (f / 10000 * 10 + f / 1000 % 10) * 10 + f / 100 % 10);
    assert(digits_value(p.take(4)) == ((f / 10000 * 10 + f / 1000 % 10) * 10 + f / 100 % 10) * 10 + f / 10 % 10);
    assert(((((f / 10000 * 10 + f / 1000 % 10) * 10 + f / 100 % 10) * 10 + f / 10 % 10) * 10 + f % 10) == f) by (nonlinear_arith)
        requires f < 100000;
    if f != 0 {
        if p[4] == '0' && p[3] == '0' && p[2] == '0' && p[1] == '0' && p[0] == '0' {
            assert(false);
        }
    }
}

proof fn lemma_trim_plain(s: Seq<char>)
    requires
        s.len() > 0,
        !is_ws(s[0]),
        !is_ws(s.last()),
    ensures
        trim(s) == s,
{
}

/// Law (round trip): the display text of every score within ±10^14 (the range
/// a display value may denote) parses back to the same score.
#[verifier::spinoff_prover]
#[verifier::rlimit(40)]
pub proof fn law_display_round_trip(v: i64)
    requires
        -100_000_000_000_000 <= v <= 100_000_000_000_000,
    ensures
        spec_parse_display(score_text(v as int)) == Ok::<i64, Seq<char>>(v),
{
    let m = magnitude(v as int);
    let ip = m / 100000;
    let fp = m % 100000;
    let sign: Seq<char> = if v < 0 { seq!['-'] } else { Seq::empty() };
    let ds = decimal(ip);
    let fs = strip_zeros(pad5(fp));
    let frac: Seq<char> = if fp == 0 { Seq::empty() } else { seq!['.'] + fs };
    let t = score_text(v as int);
    assert(t == sign + ds + frac);
    lemma_decimal_digits(ip);
    lemma_pad5(fp);
    lemma_strip_zeros_shape(pad5(fp));
    if fp != 0 {
        assert(fs.len() > 0) by {
            if fs.len() == 0 {
                let j = choose|j: int| 0 <= j < 5 && #[trigger] pad5(fp)[j] != '0';
            }
        }
    }
    // the text is its own trim
    assert(t.len() > 0);
    assert(t[0] == if v < 0 { '-' } else { ds[0] });
    assert(is_digit(ds[0]));
    if fp == 0 {
        assert(t.last() == ds.last());
        assert(is_digit(ds[ds.len() - 1]));
    } else {
        assert(t.last() == fs.last());
        assert(fs.last() == pad5(fp)[fs.len() - 1]);
        assert(is_digit(pad5(fp)[fs.len() - 1]));
    }
    lemma_trim_plain(t);
    // no exponent
    assert forall|k: int| 0 <= k < t.len() implies t[k] != 'e' && t[k] != 'E' by {
        let sl = sign.len() as int;
        if k < sl {
        } else if k < sl + ds.len() {
            assert(t[k] == ds[k - sl]);
            assert(is_digit(ds[k - sl]));
        } else if k == sl + ds.len() {
        } else {
            assert(t[k] == fs[k - sl - ds.len() - 1]);
            assert(fs[k - sl - ds.len() - 1] == pad5(fp)[k - sl - ds.len() - 1]);
            assert(is_digit(pad5(fp)[k - sl - ds.len() - 1]));
        }
    }
    assert(!t.contains('e') && !t.contains('E'));
    // the unsigned part, its point and its digits
    let b = unsigned_part(t);
    assert(sign_len(t) == sign.len());
    assert(b =~= ds + frac);
    assert forall|j: int| 0 <= j < ds.len() implies b[j] != '.' by {
        assert(b[j] == ds[j]);
        assert(is_digit(ds[j]));
    }
    lemma_first_dot_at(b, ds.len() as int);
    assert(int_digits(b) =~= ds);
    if fp == 0 {
        assert(frac_digits(b) =~= Seq::<char>::empty());
    } else {
        assert(frac_digits(b) =~= fs);
        assert forall|k: int| 0 <= k < fs.len() implies is_digit(#[trigger] fs[k]) by {
            assert(fs[k] == pad5(fp)[k]);
        }
    }
    assert(is_plain_decimal(b));
    // the value
    let fd = frac_digits(b);
    lemma_strip_zeros_shape(fd);
    if fp == 0 {
        assert(strip_zeros(fd) =~= Seq::<char>::empty());
        assert(digits_value(Seq::<char>::empty()) == 0);
    } else {
        assert(strip_zeros(fd) == fs);
        lemma_digits_value_trailing_zeros(pad5(fp), fs.len() as int);
    }
    assert(ip <= 1_000_000_000);
    assert(ip == 1_000_000_000 ==> fp == 0);
    assert(ip * 100000 + fp == m);
}

proof fn lemma_pow10_5()
    ensures
        pow10(5) == 100000,
{
    assert(pow10(0) == 1);
    assert(pow10(1) == 10);
    assert(pow10(2) == 100);
    assert(pow10(3) == 1000);
    assert(pow10(4) == 10000);
}

/// ASCII lower case of a character.
fn lower_ascii(c: char) -> (r: char)
    ensures
        r == ascii_lower(c),
{
    if 'A' <= c && c <= 'Z' {
        ((c as u8) + 32) as char
    } else {
        c
    }
}

proof fn lemma_pow10_mono(a: nat, b: nat)
    requires
        a <= b,
    ensures
        pow10(a) <= pow10(b),
        pow10(a) * pow10((b - a) as nat) == pow10(b),
    decreases b,
{
    if a < b {
        let b1 = (b - 1) as nat;
        let c = (b1 - a) as nat;
        lemma_pow10_mono(a, b1);
        assert(pow10(a) * pow10(c) == pow10(b1));
        assert((b - a) as nat == c + 1);
        assert(pow10(c + 1) == 10 * pow10(c));
        assert(pow10(b) == 10 * pow10(b1));
        assert(pow10(a) * (10 * pow10(c)) == 10 * (pow10(a) * pow10(c))) by (nonlinear_arith);
        assert(pow10((b - a) as nat) == 10 * pow10(c));
        assert(pow10(a) * pow10((b - a) as nat) == pow10(b));
        assert(pow10(a) <= pow10(b1));
        assert(pow10(b1) <= pow10(b));
    } else {
        assert(pow10(0) == 1);
        assert((b - a) as nat == 0);
        assert(pow10(a) * pow10((b - a) as nat) == pow10(b));
    }
}

/// A display value typed into the teacher's preview form, read as
/// `parse_display_value` reads it.
pub fn parse_display_str(s: &str) -> (r: Result<i64, String>)
    ensures
        match r {
            Ok(v) => spec_parse_display(s@) == Ok::<i64, Seq<char>>(v),
            Err(m) => spec_parse_display(s@) == Err::<i64, Seq<char>>(m@),
        },
{
    parse_display_value(s)
}

} // verus!
