//! Numbers as written in documents: unsigned decimal integers and
//! fixed-point decimals with six fractional digits.
use vstd::prelude::*;
use vstd::string::*;

verus! {

/// A decimal quantity held exactly as a count of millionths.
#[derive(Debug, Clone, Copy, PartialEq, Eq, Structural)]
pub struct Fixed {
    pub micros: i64,
}

impl Fixed {
    /// The quantity `micros / 1_000_000`.
    pub fn from_micros(micros: i64) -> (r: Fixed)
        ensures
            r.micros == micros,
    {
        Fixed { micros }
    }

    /// Raises `self` to `min` when it lies below it.
    pub fn at_least(self, min: Fixed) -> (r: Fixed)
        ensures
            r == clamp_up(self, min),
    {
        if self.micros < min.micros {
            min
        } else {
            self
        }
    }
}

/// The value `v` raised to `min` when below it.
pub open spec fn clamp_up(v: Fixed, min: Fixed) -> Fixed {
    if v.micros < min.micros {
        min
    } else {
        v
    }
}

pub open spec fn is_digit(c: char) -> bool {
    '0' <= c && c <= '9'
}

pub open spec fn all_digits(s: Seq<char>) -> bool {
    forall|i: int| 0 <= i < s.len() ==> is_digit(#[trigger] s[i])
}

/// The value of a string of decimal digits.
pub open spec fn digits_value(s: Seq<char>) -> nat
    decreases s.len(),
{
    if s.len() == 0 {
        0
    } else {
        digits_value(s.drop_last()) * 10 + ((s.last() as nat) - ('0' as nat)) as nat
    }
}

pub open spec fn pow10(n: nat) -> nat
    decreases n,
{
    if n == 0 {
        1
    } else {
        10 * pow10((n - 1) as nat)
    }
}

/// The digits of `s` after an optional leading `+`.
pub open spec fn unsigned_body(s: Seq<char>) -> Seq<char> {
    if s.len() > 0 && s[0] == '+' {
        s.drop_first()
    } else {
        s
    }
}

/// The `u32` that `s` denotes: an optional `+` and one or more decimal digits
/// whose value fits in 32 bits.
pub open spec fn u32_text(s: Seq<char>) -> Option<u32> {
    let d = unsigned_body(s);
    if d.len() > 0 && all_digits(d) && digits_value(d) <= u32::MAX {
        Some(digits_value(d) as u32)
    } else {
        None
    }
}

/// A prefix of a digit string has no greater value than the string.
proof fn lemma_prefix_value(s: Seq<char>, k: int)
    requires
        all_digits(s),
        0 <= k <= s.len(),
    ensures
        digits_value(s.subrange(0, k)) <= digits_value(s),
    decreases s.len(),
{
    if k == s.len() {
        assert(s.subrange(0, k) =~= s);
    } else {
        let t = s.drop_last();
        assert(t.subrange(0, k) =~= s.subrange(0, k));
        lemma_prefix_value(t, k);
    }
}

/// The value of the decimal digits `s[from..to]`, where they are all digits
/// and the value is at most `limit`.
fn read_digits(s: &str, from: usize, to: usize, limit: u64) -> (r: Option<u64>)
    requires
        from <= to <= s@.len(),
        limit <= u64::MAX / 16,
    ensures
        ({
            let d = s@.subrange(from as int, to as int);
            match r {
                Some(v) => all_digits(d) && digits_value(d) <= limit && v == digits_value(d),
                None => !(all_digits(d) && digits_value(d) <= limit),
            }
        }),
{
    let mut acc: u64 = 0;
    let mut i: usize = from;
    while i < to
        invariant
            from <= i <= to <= s@.len(),
            limit <= u64::MAX / 16,
            all_digits(s@.subrange(from as int, i as int)),
            acc == digits_value(s@.subrange(from as int, i as int)),
            acc <= limit,
        decreases to - i,
    {
        let c = s.get_char(i);
        let ghost d = s@.subrange(from as int, to as int);
        let ghost next = s@.subrange(from as int, i + 1);
        assert(next.drop_last() =~= s@.subrange(from as int, i as int));
        assert(d.subrange(0, i + 1 - from) =~= next);
        if !('0' <= c && c <= '9') {
            assert(!is_digit(d[i - from]));
            return None;
        }
        let v = acc * 10 + ((c as u32) - ('0' as u32)) as u64;
        assert(v == digits_value(next));
        if v > limit {
            proof {
                if all_digits(d) {
                    lemma_prefix_value(d, i + 1 - from);
                }
            }
            return None;
        }
        acc = v;
        i = i + 1;
        assert(all_digits(next)) by {
            assert forall|j: int| 0 <= j < next.len() implies is_digit(#[trigger] next[j]) by {
                if j < next.len() - 1 {
                    assert(next[j] == s@.subrange(from as int, (i - 1) as int)[j]);
                }
            }
        }
    }
    Some(acc)
}

/// Reads a `u32` written as an optional `+` and decimal digits.
pub fn parse_u32(s: &str) -> (r: Option<u32>)
    ensures
        r == u32_text(s@),
{
    let n = s.unicode_len();
    let from: usize = if n > 0 && s.get_char(0) == '+' { 1 } else { 0 };
    assert(unsigned_body(s@) =~= s@.subrange(from as int, n as int));
    if from == n {
        return None;
    }
    match read_digits(s, from, n, 0xFFFF_FFFF) {
        Some(v) => Some(v as u32),
        None => None,
    }
}

/// The largest whole part that a fixed-point literal may have.
pub const MAX_WHOLE: u64 = 1_000_000_000_000;

/// The index of the first `.` in `b` at or after `i`, or `b.len()`.
pub open spec fn dot_index(b: Seq<char>, i: int) -> int
    decreases b.len() - i,
{
    if i < 0 || i >= b.len() {
        b.len() as int
    } else if b[i] == '.' {
        i
    } else {
        dot_index(b, i + 1)
    }
}

/// Where the unsigned part of `s` starts: after a leading `+` or `-`.
pub open spec fn sign_len(s: Seq<char>) -> int {
    if s.len() > 0 && (s[0] == '-' || s[0] == '+') {
        1
    } else {
        0
    }
}

/// The index of the first `e` or `E` in `b` at or after `i`, or `b.len()`.
pub open spec fn exp_index(b: Seq<char>, i: int) -> int
    decreases b.len() - i,
{
    if i < 0 || i >= b.len() {
        b.len() as int
    } else if b[i] == 'e' || b[i] == 'E' {
        i
    } else {
        exp_index(b, i + 1)
    }
}

/// The exponent that `t` denotes: an optional sign and one or two digits.
pub open spec fn exp_text(t: Seq<char>) -> Option<int> {
    let k = sign_len(t);
    let d = t.subrange(k, t.len() as int);
    if 1 <= d.len() <= 2 && all_digits(d) {
        Some(if k == 1 && t[0] == '-' { -(digits_value(d) as int) } else { digits_value(d) as int })
    } else {
        None
    }
}

/// The digit at position `i` of `d`, with zeros on both sides of it.
pub open spec fn digit_at(d: Seq<char>, i: int) -> char {
    if 0 <= i < d.len() {
        d[i]
    } else {
        '0'
    }
}

/// The digits at positions `a..b` of `d`, with zeros on both sides of it.
pub open spec fn padded(d: Seq<char>, a: int, b: int) -> Seq<char> {
    if b <= a {
        Seq::empty()
    } else {
        Seq::new((b - a) as nat, |k: int| digit_at(d, a + k))
    }
}

/// The millionths of the digits `d` with the decimal point after position
/// `p`, rounded half up at the seventh digit after the point; none where the
/// whole part exceeds `MAX_WHOLE`.
pub open spec fn shifted_micros(d: Seq<char>, p: int) -> Option<nat> {
    let w = digits_value(padded(d, 0, p));
    let up: nat = if digit_at(d, p + 6) >= '5' { 1 } else { 0 };
    if w <= MAX_WHOLE {
        Some(w * 1_000_000 + digits_value(padded(d, p, p + 6)) + up)
    } else {
        None
    }
}

/// The whole digits, fraction digits and exponent of a fixed-point literal:
/// an optional sign, decimal digits with at most one `.` among them and at
/// least one digit in all, then optionally `e` or `E` and an exponent of one
/// or two digits with an optional sign.
pub open spec fn fixed_parts(s: Seq<char>) -> Option<(Seq<char>, Seq<char>, int)> {
    let b = s.subrange(sign_len(s), s.len() as int);
    let m = exp_index(b, 0);
    let mant = b.subrange(0, m);
    let e = if m < b.len() { exp_text(b.subrange(m + 1, b.len() as int)) } else { Some(0int) };
    let dot = dot_index(mant, 0);
    let whole = mant.subrange(0, dot);
    let frac = if dot < mant.len() { mant.subrange(dot + 1, mant.len() as int) } else { Seq::<char>::empty() };
    if all_digits(whole) && all_digits(frac) && whole.len() + frac.len() > 0 && e is Some {
        Some((whole, frac, e.unwrap()))
    } else {
        None
    }
}

/// The fixed-point value that `s` denotes (see `fixed_parts`), rounded to the
/// nearest millionth with halves away from zero; its whole part may be at
/// most `MAX_WHOLE`.
pub open spec fn fixed_text(s: Seq<char>) -> Option<Fixed> {
    match fixed_parts(s) {
        Some((whole, frac, e)) => match shifted_micros(whole + frac, whole.len() + e) {
            Some(v) => Some(Fixed { micros: (if s[0] == '-' { -v } else { v as int }) as i64 }),
            None => None,
        },
        None => None,
    }
}

proof fn lemma_digits_bound(s: Seq<char>)
    requires
        all_digits(s),
    ensures
        digits_value(s) < pow10(s.len()),
    decreases s.len(),
{
    if s.len() > 0 {
        let t = s.drop_last();
        assert(all_digits(t)) by {
            assert forall|j: int| 0 <= j < t.len() implies is_digit(#[trigger] t[j]) by {
                assert(t[j] == s[j]);
            }
        }
        lemma_digits_bound(t);
        assert(is_digit(s[s.len() - 1]));
    }
}

proof fn lemma_padded_digits(d: Seq<char>, a: int, b: int)
    requires
        all_digits(d),
    ensures
        all_digits(padded(d, a, b)),
{
    assert forall|k: int| 0 <= k < padded(d, a, b).len() implies is_digit(#[trigger] padded(d, a, b)[k]) by {
        if 0 <= a + k < d.len() {
            assert(is_digit(d[a + k]));
        }
    }
}

fn digit_at_exec(d: &Vec<char>, i: i128) -> (c: char)
    ensures
        c == digit_at(d@, i as int),
{
    if 0 <= i && i < d.len() as i128 {
        d[i as usize]
    } else {
        '0'
    }
}

/// The value of `padded(d, a, b)`, where it is at most `limit`.
fn read_padded(d: &Vec<char>, a: i128, b: i128, limit: u64) -> (r: Option<u64>)
    requires
        all_digits(d@),
        limit <= u64::MAX / 16,
        -0x100_0000_0000_0000_0000 <= a <= b <= 0x100_0000_0000_0000_0000,
    ensures
        match r {
            Some(v) => v == digits_value(padded(d@, a as int, b as int)) && v <= limit,
            None => digits_value(padded(d@, a as int, b as int)) > limit,
        },
{
    let mut acc: u64 = 0;
    let mut i: i128 = a;
    assert(padded(d@, a as int, a as int) =~= Seq::<char>::empty());
    while i < b
        invariant
            all_digits(d@),
            limit <= u64::MAX / 16,
            a <= i <= b <= 0x100_0000_0000_0000_0000,
            acc == digits_value(padded(d@, a as int, i as int)),
            acc <= limit,
        decreases b - i,
    {
        let c = digit_at_exec(d, i);
        let ghost next = padded(d@, a as int, i + 1);
        assert(next.drop_last() =~= padded(d@, a as int, i as int));
        assert(next.last() == c);
        proof {
            lemma_padded_digits(d@, a as int, i + 1);
            assert(is_digit(next[next.len() - 1]));
        }
        let v = acc * 10 + ((c as u32) - ('0' as u32)) as u64;
        if v > limit {
            proof {
                let all = padded(d@, a as int, b as int);
                lemma_padded_digits(d@, a as int, b as int);
                assert(all.subrange(0, i + 1 - a) =~= next);
                lemma_prefix_value(all, i + 1 - a);
            }
            return None;
        }
        acc = v;
        i = i + 1;
    }
    Some(acc)
}

/// The first position in `from..to` where `s` holds `e` or `E` (where `exp`)
/// or `.` (otherwise), or `to`.
fn first_of(s: &str, from: usize, to: usize, exp: bool) -> (r: usize)
    requires
        from <= to <= s@.len(),
    ensures
        from <= r <= to,
        exp ==> exp_index(s@.subrange(from as int, to as int), 0) == r - from,
        !exp ==> dot_index(s@.subrange(from as int, to as int), 0) == r - from,
{
    let ghost b = s@.subrange(from as int, to as int);
    let mut j: usize = from;
    while j < to
        invariant
            from <= j <= to <= s@.len(),
            b == s@.subrange(from as int, to as int),
            exp ==> exp_index(b, 0) == exp_index(b, j - from),
            !exp ==> dot_index(b, 0) == dot_index(b, j - from),
        decreases to - j,
    {
        let c = s.get_char(j);
        assert(b[j - from] == c);
        if (exp && (c == 'e' || c == 'E')) || (!exp && c == '.') {
            return j;
        }
        j = j + 1;
    }
    j
}

fn all_digits_in(s: &str, from: usize, to: usize) -> (r: bool)
    requires
        from <= to <= s@.len(),
    ensures
        r == all_digits(s@.subrange(from as int, to as int)),
{
    let mut i: usize = from;
    while i < to
        invariant
            from <= i <= to <= s@.len(),
            forall|k: int| from <= k < i ==> is_digit(#[trigger] s@[k]),
        decreases to - i,
    {
        let c = s.get_char(i);
        if !('0' <= c && c <= '9') {
            assert(!is_digit(s@.subrange(from as int, to as int)[i - from]));
            return false;
        }
        i = i + 1;
    }
    assert forall|k: int| 0 <= k < to - from implies is_digit(#[trigger] s@.subrange(from as int, to as int)[k]) by {
        assert(is_digit(s@[from + k]));
    }
    true
}

/// The exponent written in `s[from..to]`.
fn read_exp(s: &str, from: usize, to: usize) -> (r: Option<i128>)
    requires
        from <= to <= s@.len(),
    ensures
        match exp_text(s@.subrange(from as int, to as int)) {
            Some(e) => r is Some && r.unwrap() as int == e,
            None => r is None,
        },
        r is Some ==> -99 <= r.unwrap() <= 99,
{
    let ghost t = s@.subrange(from as int, to as int);
    let k: usize = if from < to && (s.get_char(from) == '-' || s.get_char(from) == '+') { 1 } else { 0 };
    assert(k == sign_len(t));
    assert(t.subrange(k as int, t.len() as int) =~= s@.subrange(from + k, to as int));
    if to - (from + k) < 1 || to - (from + k) > 2 {
        return None;
    }
    match read_digits(s, from + k, to, 99) {
        Some(v) => {
            if k == 1 && s.get_char(from) == '-' {
                Some(-(v as i128))
            } else {
                Some(v as i128)
            }
        },
        None => {
            proof {
                let d = s@.subrange(from + k, to as int);
                if all_digits(d) {
                    lemma_digits_bound(d);
                    reveal_with_fuel(pow10, 3);
                }
            }
            None
        },
    }
}

/// The characters of `s[a..b]` followed by those of `s[c..e]`.
fn join(s: &str, a: usize, b: usize, c: usize, e: usize) -> (r: Vec<char>)
    requires
        a <= b <= s@.len(),
        c <= e <= s@.len(),
    ensures
        r@ == s@.subrange(a as int, b as int) + s@.subrange(c as int, e as int),
{
    let mut r: Vec<char> = Vec::new();
    let mut i: usize = a;
    while i < b
        invariant
            a <= i <= b <= s@.len(),
            r@ == s@.subrange(a as int, i as int),
        decreases b - i,
    {
        r.push(s.get_char(i));
        assert(r@ =~= s@.subrange(a as int, i + 1));
        i = i + 1;
    }
    let mut k: usize = c;
    assert(r@ =~= s@.subrange(a as int, b as int) + s@.subrange(c as int, c as int));
    while k < e
        invariant
            a <= b <= s@.len(),
            c <= k <= e <= s@.len(),
            r@ == s@.subrange(a as int, b as int) + s@.subrange(c as int, k as int),
        decreases e - k,
    {
        r.push(s.get_char(k));
        assert(r@ =~= s@.subrange(a as int, b as int) + s@.subrange(c as int, k + 1));
        k = k + 1;
    }
    r
}

/// The millionths of the digits `d` with the point after position `p`.
fn shifted(d: &Vec<char>, p: i128) -> (r: Option<u64>)
    requires
        all_digits(d@),
        -0x2_0000_0000_0000_0000 <= p <= 0x2_0000_0000_0000_0000,
    ensures
        match shifted_micros(d@, p as int) {
            Some(v) => r == Some(v as u64) && v <= 2_000_000_000_000_000_000,
            None => r is None,
        },
{
    let w = match read_padded(d, 0, if p > 0 { p } else { 0 }, MAX_WHOLE) {
        Some(v) => v,
        None => {
            assert(p > 0);
            return None;
        },
    };
    assert(padded(d@, 0, p as int) =~= padded(d@, 0, if p > 0 { p as int } else { 0 }));
    proof {
        lemma_padded_digits(d@, p as int, p + 6);
        lemma_digits_bound(padded(d@, p as int, p + 6));
        reveal_with_fuel(pow10, 7);
    }
    let f = match read_padded(d, p, p + 6, MAX_WHOLE) {
        Some(v) => v,
        None => return None,
    };
    let up: u64 = if digit_at_exec(d, p + 6) >= '5' { 1 } else { 0 };
    Some(w * 1_000_000 + f + up)
}

/// Where the parts of a fixed-point literal lie in `s`: the whole digits at
/// `from..j`, the fraction digits at `f..m`, and the exponent.
fn split_fixed(s: &str) -> (r: Option<(usize, usize, usize, usize, i128)>)
    ensures
        match fixed_parts(s@) {
            None => r is None,
            Some((whole, frac, e)) => r is Some && {
                let (from, j, f, m, ex) = r.unwrap();
                &&& from <= j <= s@.len() && f <= m <= s@.len()
                &&& s@.subrange(from as int, j as int) == whole
                &&& s@.subrange(f as int, m as int) == frac
                &&& ex as int == e
                &&& -99 <= ex <= 99
            },
        },
{
    let n = s.unicode_len();
    let from: usize = if n > 0 && (s.get_char(0) == '-' || s.get_char(0) == '+') { 1 } else { 0 };
    let ghost b = s@.subrange(from as int, n as int);
    assert(sign_len(s@) == from);
    let m = first_of(s, from, n, true);
    let ghost mant = b.subrange(0, m - from);
    assert(mant =~= s@.subrange(from as int, m as int));
    let e: i128 = if m < n {
        assert(b.subrange(m - from + 1, b.len() as int) =~= s@.subrange(m + 1, n as int));
        match read_exp(s, m + 1, n) {
            Some(v) => v,
            None => return None,
        }
    } else {
        0
    };
    let j = first_of(s, from, m, false);
    let frac_from: usize = if j < m { j + 1 } else { m };
    let ghost whole = mant.subrange(0, j - from);
    let ghost frac = if j < m { mant.subrange(j - from + 1, mant.len() as int) } else { Seq::<char>::empty() };
    assert(whole =~= s@.subrange(from as int, j as int));
    assert(frac =~= s@.subrange(frac_from as int, m as int));
    if (j - from) + (m - frac_from) == 0 || !all_digits_in(s, from, j) || !all_digits_in(s, frac_from, m) {
        return None;
    }
    Some((from, j, frac_from, m, e))
}

/// Reads a fixed-point decimal such as `0.005`, `-2`, `.5` or `2.5e-3`.
pub fn parse_fixed(s: &str) -> (r: Option<Fixed>)
    ensures
        r == fixed_text(s@),
{
    let (from, j, f, m, e) = match split_fixed(s) {
        Some(parts) => parts,
        None => return None,
    };
    let ghost whole = s@.subrange(from as int, j as int);
    let ghost frac = s@.subrange(f as int, m as int);
    let d = join(s, from, j, f, m);
    proof {
        assert forall|k: int| 0 <= k < d@.len() implies is_digit(#[trigger] d@[k]) by {
            if k < whole.len() {
                assert(d@[k] == whole[k]);
            } else {
                assert(d@[k] == frac[k - whole.len()]);
            }
        }
    }
    let p: i128 = (j - from) as i128 + e;
    let v = match shifted(&d, p) {
        Some(v) => v,
        None => return None,
    };
    let micros: i64 = if s.get_char(0) == '-' { -(v as i64) } else { v as i64 };
    Some(Fixed { micros })
}

/// Why text is not a `u32`, as `u32::from_str` tells the cases apart.
#[derive(Debug, Clone, Copy, PartialEq, Eq, Structural)]
pub enum IntErrorKind {
    /// The text is empty.
    Empty,
    /// A character is no digit, or the text is a lone sign.
    InvalidDigit,
    /// The value does not fit in 32 bits.
    PosOverflow,
}

/// The first fault met when reading the digits `d` from position `i` on: a
/// character that is no digit, or a prefix whose value exceeds `u32::MAX`.
pub open spec fn digit_fault(d: Seq<char>, i: int) -> Option<IntErrorKind>
    decreases d.len() - i,
{
    if i < 0 || i >= d.len() {
        None
    } else if !is_digit(d[i]) {
        Some(IntErrorKind::InvalidDigit)
    } else if digits_value(d.subrange(0, i + 1)) > u32::MAX {
        Some(IntErrorKind::PosOverflow)
    } else {
        digit_fault(d, i + 1)
    }
}

/// Why `s` is not a `u32`, for text that is none.
pub open spec fn u32_fault(s: Seq<char>) -> IntErrorKind {
    if s.len() == 0 {
        IntErrorKind::Empty
    } else if unsigned_body(s).len() == 0 {
        IntErrorKind::InvalidDigit
    } else {
        match digit_fault(unsigned_body(s), 0) {
            Some(k) => k,
            None => IntErrorKind::InvalidDigit,
        }
    }
}

fn fault_of(s: &str) -> (r: IntErrorKind)
    ensures
        r == u32_fault(s@),
{
    let n = s.unicode_len();
    if n == 0 {
        return IntErrorKind::Empty;
    }
    let from: usize = if s.get_char(0) == '+' { 1 } else { 0 };
    let ghost d = unsigned_body(s@);
    assert(d =~= s@.subrange(from as int, n as int));
    if from == n {
        return IntErrorKind::InvalidDigit;
    }
    let mut acc: u64 = 0;
    let mut i: usize = from;
    while i < n
        invariant
            from <= i <= n == s@.len(),
            n > 0,
            from < n,
            d == unsigned_body(s@),
            d == s@.subrange(from as int, n as int),
            digit_fault(d, 0) == digit_fault(d, i - from),
            acc == digits_value(d.subrange(0, i - from)),
            acc <= u32::MAX,
        decreases n - i,
    {
        let c = s.get_char(i);
        let ghost j = i - from;
        assert(d[j] == c);
        if !('0' <= c && c <= '9') {
            return IntErrorKind::InvalidDigit;
        }
        assert(d.subrange(0, j + 1).drop_last() =~= d.subrange(0, j));
        let v = acc * 10 + ((c as u32) - ('0' as u32)) as u64;
        assert(v == digits_value(d.subrange(0, j + 1)));
        if v > 0xFFFF_FFFF {
            return IntErrorKind::PosOverflow;
        }
        acc = v;
        i = i + 1;
    }
    IntErrorKind::InvalidDigit
}

/// Reads a `u32` as `u32::from_str` does: an optional `+` and decimal digits,
/// or the reason the text is none.
pub fn read_u32(s: &str) -> (r: Result<u32, IntErrorKind>)
    ensures
        match u32_text(s@) {
            Some(v) => r == Ok::<u32, IntErrorKind>(v),
            None => r == Err::<u32, IntErrorKind>(u32_fault(s@)),
        },
{
    match parse_u32(s) {
        Some(v) => Ok(v),
        None => Err(fault_of(s)),
    }
}

} // verus!
