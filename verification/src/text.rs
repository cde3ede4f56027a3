//! Decimal numbers and simple fields in ASCII text.

use vstd::prelude::*;

verus! {

/// The digit `0`.
pub const ZERO: u8 = 0x30;

/// The digit `9`.
pub const NINE: u8 = 0x39;

/// The plus sign.
pub const PLUS: u8 = 0x2b;

/// The point.
pub const POINT: u8 = 0x2e;

/// The slash.
pub const SLASH: u8 = 0x2f;

/// The line break.
pub const LINE_BREAK: u8 = 0x0a;

/// Whether `b` is one of the ASCII digits `0` to `9`.
pub open spec fn is_digit(b: u8) -> bool {
    ZERO <= b <= NINE
}

/// Whether every byte of `s` is an ASCII digit.
pub open spec fn all_digits(s: Seq<u8>) -> bool {
    forall|i: int| 0 <= i < s.len() ==> is_digit(#[trigger] s[i])
}

/// The number that the digits `s` spell in base ten; zero for no digits.
pub open spec fn digits_value(s: Seq<u8>) -> nat
    decreases s.len(),
{
    if s.len() == 0 {
        0
    } else {
        digits_value(s.drop_last()) * 10 + (s.last() - ZERO) as nat
    }
}

/// The digits of an unsigned number written as text: the text without one
/// leading plus sign, if it has one.
pub open spec fn unsigned_digits(s: Seq<u8>) -> Seq<u8> {
    if s.len() > 0 && s[0] == PLUS {
        s.skip(1)
    } else {
        s
    }
}

/// The number that `s` spells, when `s` is an unsigned decimal number no
/// larger than `u32::MAX`: an optional plus sign, then one digit or more and
/// nothing else.
pub open spec fn unsigned_value(s: Seq<u8>) -> Option<u32> {
    let digits = unsigned_digits(s);
    if digits.len() > 0 && all_digits(digits) && digits_value(digits) <= u32::MAX {
        Some(digits_value(digits) as u32)
    } else {
        None
    }
}

/// The decimal digits of `n`, most significant first, without leading zeros;
/// zero is the single digit `0`.
pub open spec fn decimal(n: nat) -> Seq<u8>
    decreases n,
{
    if n < 10 {
        seq![(ZERO + n) as u8]
    } else {
        decimal(n / 10).push((ZERO + n % 10) as u8)
    }
}

/// The decimal digits of `n`, padded with zeros on the left to `width`
/// digits when there are fewer.
pub open spec fn decimal_padded(n: nat, width: nat) -> Seq<u8> {
    let digits = decimal(n);
    if digits.len() < width {
        Seq::new((width - digits.len()) as nat, |i: int| ZERO) + digits
    } else {
        digits
    }
}

/// The length of the longest prefix of `s` that does not hold `stop`: the
/// place of the first `stop`, or the length of `s` where there is none.
pub open spec fn span_before(s: Seq<u8>, stop: u8) -> nat
    decreases s.len(),
{
    if s.len() == 0 || s[0] == stop {
        0
    } else {
        1 + span_before(s.drop_first(), stop)
    }
}

/// `s` with every occurrence of `gone` taken out.
pub open spec fn without(s: Seq<u8>, gone: u8) -> Seq<u8>
    decreases s.len(),
{
    if s.len() == 0 {
        Seq::empty()
    } else if s.last() == gone {
        without(s.drop_last(), gone)
    } else {
        without(s.drop_last(), gone).push(s.last())
    }
}

/// A number is written with digits alone.
pub proof fn lemma_decimal_is_digits(n: nat)
    ensures
        all_digits(decimal(n)),
    decreases n,
{
    if n >= 10 {
        lemma_decimal_is_digits(n / 10);
    }
}

/// The value of digits does not shrink when more digits follow.
pub proof fn lemma_digits_value_grows(s: Seq<u8>, n: int)
    requires
        0 <= n <= s.len(),
        all_digits(s),
    ensures
        digits_value(s.take(n)) <= digits_value(s),
    decreases s.len(),
{
    if n == s.len() {
        assert(s.take(n) =~= s);
    } else {
        assert(s.drop_last().take(n) =~= s.take(n));
        lemma_digits_value_grows(s.drop_last(), n);
    }
}

/// The first `n` bytes of `s` hold no `stop`, and `s` ends there or goes on
/// with a `stop`: then `n` is the length of the longest prefix without one.
pub proof fn lemma_span_before(s: Seq<u8>, stop: u8, n: int)
    requires
        0 <= n <= s.len(),
        forall|i: int| 0 <= i < n ==> s[i] != stop,
        n == s.len() || s[n] == stop,
    ensures
        span_before(s, stop) == n,
    decreases n,
{
    if n > 0 {
        let rest = s.drop_first();
        assert forall|i: int| 0 <= i < n - 1 implies rest[i] != stop by {
            assert(rest[i] == s[i + 1]);
        }
        lemma_span_before(rest, stop, n - 1);
    }
}

/// The place of the first `stop` in `s`, or the length of `s` where there is
/// none.
pub fn find_byte(s: &[u8], stop: u8) -> (n: usize)
    ensures
        n == span_before(s@, stop),
        n <= s@.len(),
{
    let mut i: usize = 0;
    while i < s.len() && s[i] != stop
        invariant
            i <= s@.len(),
            forall|k: int| 0 <= k < i ==> s@[k] != stop,
        decreases s@.len() - i,
    {
        i += 1;
    }
    proof {
        lemma_span_before(s@, stop, i as int);
    }
    i
}

/// Copies `s` without the bytes equal to `gone`.
pub fn strip_byte(s: &[u8], gone: u8) -> (out: Vec<u8>)
    ensures
        out@ == without(s@, gone),
{
    let mut out: Vec<u8> = Vec::new();
    let mut i: usize = 0;
    assert(s@.take(0) =~= Seq::<u8>::empty());
    while i < s.len()
        invariant
            i <= s@.len(),
            out@ == without(s@.take(i as int), gone),
        decreases s@.len() - i,
    {
        proof {
            assert(s@.take(i + 1).drop_last() =~= s@.take(i as int));
            assert(s@.take(i + 1).last() == s@[i as int]);
        }
        if s[i] != gone {
            out.push(s[i]);
        }
        i += 1;
    }
    assert(s@.take(s@.len() as int) =~= s@);
    out
}

/// Reads an unsigned decimal number that fits in 32 bits: an optional plus
/// sign, then one digit or more and nothing else. Anything else is `None`.
pub fn parse_u32(s: &[u8]) -> (r: Option<u32>)
    ensures
        r == unsigned_value(s@),
{
    let start: usize = if s.len() > 0 && s[0] == PLUS {
        1
    } else {
        0
    };
    let ghost digits = unsigned_digits(s@);
    assert(digits =~= s@.skip(start as int));
    if start == s.len() {
        return None;
    }
    let mut acc: u64 = 0;
    let mut i: usize = start;
    assert(digits.take(0) =~= Seq::<u8>::empty());
    while i < s.len()
        invariant
            start <= i <= s@.len(),
            digits == s@.skip(start as int),
            digits == unsigned_digits(s@),
            all_digits(digits.take(i - start)),
            acc == digits_value(digits.take(i - start)),
            acc <= u32::MAX,
        decreases s@.len() - i,
    {
        let b: u8 = s[i];
        let ghost k: int = i - start;
        proof {
            assert(digits[k] == b);
            assert(digits.take(k + 1).drop_last() =~= digits.take(k));
            assert(digits.take(k + 1).last() == b);
        }
        if b < ZERO || b > NINE {
            assert(!is_digit(digits[k]));
            return None;
        }
        assert forall|j: int| 0 <= j < k + 1 implies is_digit(
            #[trigger] digits.take(k + 1)[j],
        ) by {
            if j < k {
                assert(digits.take(k)[j] == digits.take(k + 1)[j]);
            }
        }
        acc = acc * 10 + (b - ZERO) as u64;
        i += 1;
        if acc > u32::MAX as u64 {
            proof {
                if all_digits(digits) {
                    lemma_digits_value_grows(digits, k + 1);
                }
            }
            return None;
        }
    }
    assert(digits.take(digits.len() as int) =~= digits);
    Some(acc as u32)
}

/// Appends the decimal digits of `n` to `out`.
pub fn push_decimal(out: &mut Vec<u8>, n: u64)
    ensures
        final(out)@ == old(out)@ + decimal(n as nat),
    decreases n,
{
    if n >= 10 {
        push_decimal(out, n / 10);
    }
    out.push(ZERO + (n % 10) as u8);
    assert(out@ =~= old(out)@ + decimal(n as nat));
}

/// Appends the decimal digits of `n` to `out`, after as many zeros as it
/// takes to fill `width` digits.
pub fn push_decimal_padded(out: &mut Vec<u8>, n: u64, width: usize)
    ensures
        final(out)@ == old(out)@ + decimal_padded(n as nat, width as nat),
{
    let mut digits: Vec<u8> = Vec::new();
    push_decimal(&mut digits, n);
    assert(digits@ =~= decimal(n as nat));
    let have: usize = digits.len();
    let pad: usize = if width > have {
        width - have
    } else {
        0
    };
    let ghost start = out@;
    let mut k: usize = 0;
    assert(out@ =~= start + Seq::new(0, |i: int| ZERO));
    while k < pad
        invariant
            k <= pad,
            out@ == start + Seq::new(k as nat, |i: int| ZERO),
        decreases pad - k,
    {
        out.push(ZERO);
        k += 1;
        assert(out@ =~= start + Seq::new(k as nat, |i: int| ZERO));
    }
    let mut j: usize = 0;
    let ghost before = out@;
    assert(out@ =~= before + digits@.take(0));
    while j < have
        invariant
            j <= have,
            have == digits@.len(),
            out@ == before + digits@.take(j as int),
        decreases have - j,
    {
        out.push(digits[j]);
        j += 1;
        assert(out@ =~= before + digits@.take(j as int));
    }
    assert(digits@.take(have as int) =~= digits@);
    assert(out@ =~= start + decimal_padded(n as nat, width as nat));
}

} // verus!
