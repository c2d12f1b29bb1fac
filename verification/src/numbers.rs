//! Decimal number syntax, as `str::parse` of std reads it, and Unicode white space.
use vstd::prelude::*;
use vstd::string::StringSliceAdditionalSpecFns;

verus! {

/// The kinds of failure of std's integer parsing.
#[derive(Clone, Copy, Debug, PartialEq, Eq)]
pub enum IntErrorKind {
    Empty,
    InvalidDigit,
    PosOverflow,
    NegOverflow,
}

/// The kinds of failure of std's float parsing.
#[derive(Clone, Copy, Debug, PartialEq, Eq)]
pub enum FloatErrorKind {
    Empty,
    Invalid,
}

pub open spec fn is_digit(b: u8) -> bool {
    48 <= b <= 57
}

/// Outcome of reading a run of digits from left to right against an upper bound.
pub enum Scan {
    Value(nat),
    NotDigit,
    TooLarge,
}

/// Reads `s` from left to right: the first byte that is not a digit, or the first
/// prefix whose value exceeds `max`, decides the outcome.
pub open spec fn scan_digits(s: Seq<u8>, max: nat) -> Scan
    decreases s.len(),
{
    if s.len() == 0 {
        Scan::Value(0)
    } else {
        match scan_digits(s.drop_last(), max) {
            Scan::Value(v) => if !is_digit(s.last()) {
                Scan::NotDigit
            } else if v * 10 + (s.last() - 48) > max {
                Scan::TooLarge
            } else {
                Scan::Value(v * 10 + (s.last() - 48) as nat)
            },
            other => other,
        }
    }
}

/// What `str::parse` of an unsigned integer type whose largest value is `max` gives on `s`.
pub open spec fn parse_unsigned(s: Seq<u8>, max: nat) -> Result<nat, IntErrorKind> {
    if s.len() == 0 {
        Err(IntErrorKind::Empty)
    } else if s.len() == 1 && (s[0] == 43 || s[0] == 45) {
        Err(IntErrorKind::InvalidDigit)
    } else {
        let digits = if s[0] == 43 { s.skip(1) } else { s };
        match scan_digits(digits, max) {
            Scan::Value(v) => Ok(v),
            Scan::NotDigit => Err(IntErrorKind::InvalidDigit),
            Scan::TooLarge => Err(IntErrorKind::PosOverflow),
        }
    }
}

/// What `str::parse::<i32>` gives on `s`.
pub open spec fn parse_i32_spec(s: Seq<u8>) -> Result<int, IntErrorKind> {
    if s.len() == 0 {
        Err(IntErrorKind::Empty)
    } else if s.len() == 1 && (s[0] == 43 || s[0] == 45) {
        Err(IntErrorKind::InvalidDigit)
    } else if s[0] == 45 {
        match scan_digits(s.skip(1), 0x8000_0000) {
            Scan::Value(v) => Ok(-v),
            Scan::NotDigit => Err(IntErrorKind::InvalidDigit),
            Scan::TooLarge => Err(IntErrorKind::NegOverflow),
        }
    } else {
        let digits = if s[0] == 43 { s.skip(1) } else { s };
        match scan_digits(digits, 0x7fff_ffff) {
            Scan::Value(v) => Ok(v as int),
            Scan::NotDigit => Err(IntErrorKind::InvalidDigit),
            Scan::TooLarge => Err(IntErrorKind::PosOverflow),
        }
    }
}

proof fn lemma_scan_bounded(s: Seq<u8>, max: nat)
    ensures
        scan_digits(s, max) matches Scan::Value(v) ==> v <= max,
    decreases s.len(),
{
    if s.len() > 0 {
        lemma_scan_bounded(s.drop_last(), max);
    }
}

/// Reads the digits `s[lo..hi]` from left to right against the bound `max`.
fn scan_range(s: &[u8], lo: usize, hi: usize, max: u64) -> (res: Result<u64, IntErrorKind>)
    requires
        lo <= hi <= s@.len(),
    ensures
        match scan_digits(s@.subrange(lo as int, hi as int), max as nat) {
            Scan::Value(v) => res == Ok::<u64, IntErrorKind>(v as u64),
            Scan::NotDigit => res == Err::<u64, IntErrorKind>(IntErrorKind::InvalidDigit),
            Scan::TooLarge => res == Err::<u64, IntErrorKind>(IntErrorKind::PosOverflow),
        },
{
    let mut v: u64 = 0;
    let mut i: usize = lo;
    assert(s@.subrange(lo as int, lo as int) =~= Seq::<u8>::empty());
    while i < hi
        invariant
            lo <= i <= hi <= s@.len(),
            scan_digits(s@.subrange(lo as int, i as int), max as nat) == Scan::Value(v as nat),
        decreases hi - i,
    {
        let b = s[i];
        assert(s@.subrange(lo as int, i + 1).drop_last() =~= s@.subrange(lo as int, i as int));
        if b < 48 || b > 57 {
            proof { lemma_scan_rest_fixed(s@, lo as int, i as int + 1, hi as int, max as nat); }
            return Err(IntErrorKind::InvalidDigit);
        }
        let next: u128 = v as u128 * 10 + (b - 48) as u128;
        if next > max as u128 {
            proof { lemma_scan_rest_fixed(s@, lo as int, i as int + 1, hi as int, max as nat); }
            return Err(IntErrorKind::PosOverflow);
        }
        v = next as u64;
        i = i + 1;
    }
    Ok(v)
}

/// Once a scan has failed, reading more bytes keeps the failure.
proof fn lemma_scan_rest_fixed(s: Seq<u8>, lo: int, j: int, hi: int, max: nat)
    requires
        0 <= lo <= j <= hi <= s.len(),
        !(scan_digits(s.subrange(lo, j), max) is Value),
    ensures
        scan_digits(s.subrange(lo, hi), max) == scan_digits(s.subrange(lo, j), max),
    decreases hi - j,
{
    if j < hi {
        lemma_scan_rest_fixed(s, lo, j, hi - 1, max);
        assert(s.subrange(lo, hi).drop_last() =~= s.subrange(lo, hi - 1));
    }
}

/// `str::parse` of an unsigned integer type with largest value `max`, on the bytes `s[lo..hi]`.
pub fn parse_unsigned_range(s: &[u8], lo: usize, hi: usize, max: u64) -> (res: Result<
    u64,
    IntErrorKind,
>)
    requires
        lo <= hi <= s@.len(),
    ensures
        match parse_unsigned(s@.subrange(lo as int, hi as int), max as nat) {
            Ok(v) => res == Ok::<u64, IntErrorKind>(v as u64),
            Err(e) => res == Err::<u64, IntErrorKind>(e),
        },
{
    let ghost t = s@.subrange(lo as int, hi as int);
    if lo == hi {
        return Err(IntErrorKind::Empty);
    }
    if hi - lo == 1 && (s[lo] == 43 || s[lo] == 45) {
        return Err(IntErrorKind::InvalidDigit);
    }
    if s[lo] == 43 {
        assert(t.skip(1) =~= s@.subrange(lo + 1, hi as int));
        scan_range(s, lo + 1, hi, max)
    } else {
        scan_range(s, lo, hi, max)
    }
}

/// `str::parse::<i32>` on the bytes `s[lo..hi]`.
pub fn parse_i32_range(s: &[u8], lo: usize, hi: usize) -> (res: Result<i32, IntErrorKind>)
    requires
        lo <= hi <= s@.len(),
    ensures
        match parse_i32_spec(s@.subrange(lo as int, hi as int)) {
            Ok(v) => res == Ok::<i32, IntErrorKind>(v as i32),
            Err(e) => res == Err::<i32, IntErrorKind>(e),
        },
        res matches Ok(v) ==> parse_i32_spec(s@.subrange(lo as int, hi as int)) == Ok::<
            int,
            IntErrorKind,
        >(v as int),
{
    let ghost t = s@.subrange(lo as int, hi as int);
    if lo == hi {
        return Err(IntErrorKind::Empty);
    }
    if hi - lo == 1 && (s[lo] == 43 || s[lo] == 45) {
        return Err(IntErrorKind::InvalidDigit);
    }
    if s[lo] == 45 {
        assert(t.skip(1) =~= s@.subrange(lo + 1, hi as int));
        proof { lemma_scan_bounded(t.skip(1), 0x8000_0000); }
        match scan_range(s, lo + 1, hi, 0x8000_0000) {
            Ok(v) => {
                if v == 0x8000_0000 {
                    Ok(i32::MIN)
                } else {
                    Ok(-(v as i32))
                }
            },
            Err(IntErrorKind::PosOverflow) => Err(IntErrorKind::NegOverflow),
            Err(e) => Err(e),
        }
    } else {
        if s[lo] == 43 {
            assert(t.skip(1) =~= s@.subrange(lo + 1, hi as int));
            proof { lemma_scan_bounded(t.skip(1), 0x7fff_ffff); }
            match scan_range(s, lo + 1, hi, 0x7fff_ffff) {
                Ok(v) => Ok(v as i32),
                Err(e) => Err(e),
            }
        } else {
            proof { lemma_scan_bounded(t, 0x7fff_ffff); }
            match scan_range(s, lo, hi, 0x7fff_ffff) {
                Ok(v) => Ok(v as i32),
                Err(e) => Err(e),
            }
        }
    }
}

} // verus!

verus! {

pub open spec fn lower_ascii(b: u8) -> u8 {
    if 65 <= b <= 90 {
        (b + 32) as u8
    } else {
        b
    }
}

pub open spec fn all_digits(s: Seq<u8>) -> bool {
    forall|i: int| 0 <= i < s.len() ==> is_digit(#[trigger] s[i])
}

pub open spec fn is_sign(b: u8) -> bool {
    b == 43 || b == 45
}

/// `s` spells `word` (given in lower case) ignoring ASCII case.
pub open spec fn spells(s: Seq<u8>, word: Seq<u8>) -> bool {
    s.len() == word.len() && forall|i: int| 0 <= i < s.len() ==> lower_ascii(#[trigger] s[i]) == word[i]
}

/// The first index of a byte satisfying `p`, if any.
pub open spec fn first_index(s: Seq<u8>, p: spec_fn(u8) -> bool) -> Option<int>
    decreases s.len(),
{
    if s.len() == 0 {
        None
    } else if p(s[0]) {
        Some(0)
    } else {
        match first_index(s.skip(1), p) {
            Some(i) => Some(i + 1),
            None => None,
        }
    }
}

/// `e` or `E`, then an optional sign, then at least one digit.
pub open spec fn is_exponent(s: Seq<u8>) -> bool {
    &&& s.len() >= 2
    &&& lower_ascii(s[0]) == 101
    &&& {
        let rest = if is_sign(s[1]) { s.skip(2) } else { s.skip(1) };
        rest.len() > 0 && all_digits(rest)
    }
}

/// Digits with at most one `.` among them, and at least one digit.
pub open spec fn is_mantissa(s: Seq<u8>) -> bool {
    match index_of(s, 46) {
        Some(p) => all_digits(s.take(p)) && all_digits(s.skip(p + 1)) && s.len() > 1,
        None => s.len() > 0 && all_digits(s),
    }
}

pub open spec fn is_decimal_number(s: Seq<u8>) -> bool {
    match first_index(s, |b: u8| lower_ascii(b) == 101) {
        Some(p) => is_mantissa(s.take(p)) && is_exponent(s.skip(p)),
        None => is_mantissa(s),
    }
}

/// The grammar that std documents for `str::parse` of a floating-point number:
/// an optional sign, then `inf`, `infinity`, `nan` (in any case) or a decimal number
/// with an optional exponent.
pub open spec fn is_float_literal(s: Seq<u8>) -> bool {
    let body = if s.len() > 0 && is_sign(s[0]) { s.skip(1) } else { s };
    ||| spells(body, seq![105u8, 110, 102])
    ||| spells(body, seq![105u8, 110, 102, 105, 110, 105, 116, 121])
    ||| spells(body, seq![110u8, 97, 110])
    ||| is_decimal_number(body)
}

/// What `str::parse` of a floating-point number gives on `s`, apart from the value.
pub open spec fn float_syntax(s: Seq<u8>) -> Result<(), FloatErrorKind> {
    if s.len() == 0 {
        Err(FloatErrorKind::Empty)
    } else if is_float_literal(s) {
        Ok(())
    } else {
        Err(FloatErrorKind::Invalid)
    }
}

fn lower_byte(b: u8) -> (r: u8)
    ensures
        r == lower_ascii(b),
{
    if 65 <= b && b <= 90 {
        b + 32
    } else {
        b
    }
}

fn digits_only(s: &[u8], lo: usize, hi: usize) -> (r: bool)
    requires
        lo <= hi <= s@.len(),
    ensures
        r == all_digits(s@.subrange(lo as int, hi as int)),
{
    let mut i: usize = lo;
    while i < hi
        invariant
            lo <= i <= hi <= s@.len(),
            forall|k: int| lo <= k < i ==> is_digit(s@[k]),
        decreases hi - i,
    {
        if s[i] < 48 || s[i] > 57 {
            assert(!is_digit(s@.subrange(lo as int, hi as int)[i - lo]));
            return false;
        }
        i = i + 1;
    }
    assert forall|k: int| 0 <= k < hi - lo implies is_digit(
        #[trigger] s@.subrange(lo as int, hi as int)[k],
    ) by {
        assert(s@.subrange(lo as int, hi as int)[k] == s@[lo + k]);
    }
    true
}

proof fn lemma_first_index_found(s: Seq<u8>, p: spec_fn(u8) -> bool, i: int)
    requires
        0 <= i < s.len(),
        p(s[i]),
        forall|k: int| 0 <= k < i ==> !p(s[k]),
    ensures
        first_index(s, p) == Some(i),
    decreases i,
{
    if i > 0 {
        lemma_first_index_found(s.skip(1), p, i - 1);
    }
}

proof fn lemma_first_index_none(s: Seq<u8>, p: spec_fn(u8) -> bool)
    requires
        forall|k: int| 0 <= k < s.len() ==> !p(s[k]),
    ensures
        first_index(s, p) == None::<int>,
    decreases s.len(),
{
    if s.len() > 0 {
        lemma_first_index_none(s.skip(1), p);
    }
}

/// The first index of the byte `x` in `s`, if any.
pub open spec fn index_of(s: Seq<u8>, x: u8) -> Option<int>
    decreases s.len(),
{
    if s.len() == 0 {
        None
    } else if s[0] == x {
        Some(0)
    } else {
        match index_of(s.skip(1), x) {
            Some(i) => Some(i + 1),
            None => None,
        }
    }
}

proof fn lemma_index_of_found(s: Seq<u8>, x: u8, i: int)
    requires
        0 <= i < s.len(),
        s[i] == x,
        forall|k: int| 0 <= k < i ==> s[k] != x,
    ensures
        index_of(s, x) == Some(i),
    decreases i,
{
    if i > 0 {
        lemma_index_of_found(s.skip(1), x, i - 1);
    }
}

proof fn lemma_index_of_none(s: Seq<u8>, x: u8)
    requires
        forall|k: int| 0 <= k < s.len() ==> s[k] != x,
    ensures
        index_of(s, x) == None::<int>,
    decreases s.len(),
{
    if s.len() > 0 {
        lemma_index_of_none(s.skip(1), x);
    }
}

/// The first index in `lo..hi` holding `target`, or `hi`.
pub fn find_byte(s: &[u8], lo: usize, hi: usize, target: u8) -> (r: usize)
    requires
        lo <= hi <= s@.len(),
    ensures
        lo <= r <= hi,
        forall|k: int| lo <= k < r ==> s@[k] != target,
        r < hi ==> s@[r as int] == target,
        index_of(s@.subrange(lo as int, hi as int), target) == (if r < hi {
            Some(r - lo)
        } else {
            None::<int>
        }),
{
    let mut i: usize = lo;
    while i < hi
        invariant
            lo <= i <= hi <= s@.len(),
            forall|k: int| lo <= k < i ==> s@[k] != target,
        decreases hi - i,
    {
        if s[i] == target {
            proof {
                lemma_index_of_found(s@.subrange(lo as int, hi as int), target, i - lo);
            }
            return i;
        }
        i = i + 1;
    }
    proof {
        lemma_index_of_none(s@.subrange(lo as int, hi as int), target);
    }
    hi
}

fn find_exponent_mark(s: &[u8], lo: usize, hi: usize) -> (r: usize)
    requires
        lo <= hi <= s@.len(),
    ensures
        lo <= r <= hi,
        first_index(s@.subrange(lo as int, hi as int), |b: u8| lower_ascii(b) == 101) == (if r
            < hi {
            Some(r - lo)
        } else {
            None::<int>
        }),
{
    let mut i: usize = lo;
    while i < hi
        invariant
            lo <= i <= hi <= s@.len(),
            forall|k: int| lo <= k < i ==> lower_ascii(s@[k]) != 101,
        decreases hi - i,
    {
        if lower_byte(s[i]) == 101 {
            proof {
                lemma_first_index_found(
                    s@.subrange(lo as int, hi as int),
                    |b: u8| lower_ascii(b) == 101,
                    i - lo,
                );
            }
            return i;
        }
        i = i + 1;
    }
    proof {
        lemma_first_index_none(s@.subrange(lo as int, hi as int), |b: u8| lower_ascii(b) == 101);
    }
    hi
}

fn mantissa_ok(s: &[u8], lo: usize, hi: usize) -> (r: bool)
    requires
        lo <= hi <= s@.len(),
    ensures
        r == is_mantissa(s@.subrange(lo as int, hi as int)),
{
    let ghost t = s@.subrange(lo as int, hi as int);
    let p: usize = find_byte(s, lo, hi, 46);
    if p < hi {
        assert(t.take(p - lo) =~= s@.subrange(lo as int, p as int));
        assert(t.skip(p - lo + 1) =~= s@.subrange(p + 1, hi as int));
        digits_only(s, lo, p) && digits_only(s, p + 1, hi) && hi - lo > 1
    } else {
        hi > lo && digits_only(s, lo, hi)
    }
}

fn exponent_ok(s: &[u8], lo: usize, hi: usize) -> (r: bool)
    requires
        lo <= hi <= s@.len(),
    ensures
        r == is_exponent(s@.subrange(lo as int, hi as int)),
{
    let ghost t = s@.subrange(lo as int, hi as int);
    if hi - lo < 2 {
        return false;
    }
    if lower_byte(s[lo]) != 101 {
        return false;
    }
    let start: usize = if s[lo + 1] == 43 || s[lo + 1] == 45 {
        lo + 2
    } else {
        lo + 1
    };
    assert(t.skip(start - lo) =~= s@.subrange(start as int, hi as int));
    start < hi && digits_only(s, start, hi)
}

fn spells_word(s: &[u8], lo: usize, hi: usize, word: &[u8]) -> (r: bool)
    requires
        lo <= hi <= s@.len(),
    ensures
        r == spells(s@.subrange(lo as int, hi as int), word@),
{
    if hi - lo != word.len() {
        return false;
    }
    let mut i: usize = 0;
    while i < word.len()
        invariant
            lo <= hi <= s@.len(),
            hi - lo == word@.len(),
            0 <= i <= word@.len(),
            forall|k: int| 0 <= k < i ==> lower_ascii(s@[lo + k]) == word@[k],
        decreases word@.len() - i,
    {
        if lower_byte(s[lo + i]) != word[i] {
            assert(lower_ascii(s@.subrange(lo as int, hi as int)[i as int]) != word@[i as int]);
            return false;
        }
        i = i + 1;
    }
    assert forall|k: int| 0 <= k < hi - lo implies lower_ascii(
        #[trigger] s@.subrange(lo as int, hi as int)[k],
    ) == word@[k] by {
        assert(s@.subrange(lo as int, hi as int)[k] == s@[lo + k]);
    }
    true
}

/// Checks `text` against the floating-point grammar that `str::parse` accepts.
pub fn check_float_syntax(text: &str) -> (res: Result<(), FloatErrorKind>)
    ensures
        res == float_syntax(text.spec_bytes()),
{
    let s = text.as_bytes();
    let ghost b = s@;
    let hi: usize = s.len();
    assert(b.subrange(0, hi as int) =~= b);
    if hi == 0 {
        return Err(FloatErrorKind::Empty);
    }
    let lo: usize = if s[0] == 43 || s[0] == 45 {
        1
    } else {
        0
    };
    let ghost body = s@.subrange(lo as int, hi as int);
    assert(body =~= (if b.len() > 0 && is_sign(b[0]) { b.skip(1) } else { b }));
    let inf: [u8; 3] = [105, 110, 102];
    let infinity: [u8; 8] = [105, 110, 102, 105, 110, 105, 116, 121];
    let nan: [u8; 3] = [110, 97, 110];
    assert(inf@ =~= seq![105u8, 110, 102]);
    assert(infinity@ =~= seq![105u8, 110, 102, 105, 110, 105, 116, 121]);
    assert(nan@ =~= seq![110u8, 97, 110]);
    if spells_word(s, lo, hi, &inf) || spells_word(s, lo, hi, &infinity) || spells_word(
        s,
        lo,
        hi,
        &nan,
    ) {
        return Ok(());
    }
    let e: usize = find_exponent_mark(s, lo, hi);
    let number = if e < hi {
        assert(body.take(e - lo) =~= s@.subrange(lo as int, e as int));
        assert(body.skip(e - lo) =~= s@.subrange(e as int, hi as int));
        mantissa_ok(s, lo, e) && exponent_ok(s, e, hi)
    } else {
        mantissa_ok(s, lo, hi)
    };
    if number {
        Ok(())
    } else {
        Err(FloatErrorKind::Invalid)
    }
}

} // verus!

verus! {

/// The characters with the Unicode `White_Space` property, which `char::is_whitespace` tests for.
pub open spec fn is_white_space(c: char) -> bool {
    let u = c as u32;
    ||| 0x09 <= u <= 0x0d
    ||| u == 0x20
    ||| u == 0x85
    ||| u == 0xa0
    ||| u == 0x1680
    ||| 0x2000 <= u <= 0x200a
    ||| u == 0x2028
    ||| u == 0x2029
    ||| u == 0x202f
    ||| u == 0x205f
    ||| u == 0x3000
}

/// `char::is_whitespace`.
pub fn char_is_whitespace(c: char) -> (r: bool)
    ensures
        r == is_white_space(c),
{
    let u = c as u32;
    (0x09 <= u && u <= 0x0d) || u == 0x20 || u == 0x85 || u == 0xa0 || u == 0x1680 || (0x2000 <= u
        && u <= 0x200a) || u == 0x2028 || u == 0x2029 || u == 0x202f || u == 0x205f || u == 0x3000
}

pub open spec fn pow10(n: nat) -> nat
    decreases n,
{
    if n == 0 {
        1
    } else {
        10 * pow10((n - 1) as nat)
    }
}

/// A run of `n` bytes read as digits has a value below `10^n`.
pub proof fn lemma_scan_below_pow10(s: Seq<u8>, max: nat)
    ensures
        scan_digits(s, max) matches Scan::Value(v) ==> v < pow10(s.len()),
    decreases s.len(),
{
    if s.len() > 0 {
        lemma_scan_below_pow10(s.drop_last(), max);
    }
}

pub proof fn lemma_pow10_monotone(a: nat, b: nat)
    requires
        a <= b,
    ensures
        pow10(a) <= pow10(b),
    decreases b,
{
    if a < b {
        lemma_pow10_monotone(a, (b - 1) as nat);
    }
}

} // verus!
