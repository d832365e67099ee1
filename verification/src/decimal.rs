//! Decimal numbers in ASCII.
use vstd::prelude::*;

verus! {

/// The decimal digits of `n`, without leading zeros.
pub open spec fn decimal(n: nat) -> Seq<u8>
    decreases n,
{
    if n < 10 {
        seq![(48 + n) as u8]
    } else {
        decimal(n / 10).push((48 + n % 10) as u8)
    }
}

/// Whether every byte is an ASCII digit.
pub open spec fn all_digits(bytes: Seq<u8>) -> bool {
    forall|i: int| 0 <= i < bytes.len() ==> 48 <= #[trigger] bytes[i] <= 57
}

/// The number that the digits write in base ten.
pub open spec fn digits_value(digits: Seq<u8>) -> nat
    decreases digits.len(),
{
    if digits.len() == 0 {
        0
    } else {
        (10 * digits_value(digits.drop_last()) + (digits.last() - 48)) as nat
    }
}

/// `bytes` without a leading plus sign.
pub open spec fn unsigned_part(bytes: Seq<u8>) -> Seq<u8> {
    if bytes.len() > 0 && bytes[0] == 43 {
        bytes.skip(1)
    } else {
        bytes
    }
}

/// The number that `bytes` write: an optional plus sign, then digits only, at least one of them,
/// whose value fits in `usize`.
pub open spec fn parsed(bytes: Seq<u8>) -> Option<nat> {
    let digits = unsigned_part(bytes);
    if digits.len() > 0 && all_digits(digits) && digits_value(digits) <= usize::MAX {
        Some(digits_value(digits))
    } else {
        None
    }
}

pub proof fn lemma_value_grows(digits: Seq<u8>, k: int)
    requires
        all_digits(digits),
        0 <= k <= digits.len(),
    ensures
        digits_value(digits.take(k)) <= digits_value(digits),
    decreases digits.len() - k,
{
    if k == digits.len() {
        assert(digits.take(k) =~= digits);
    } else {
        lemma_value_grows(digits, k + 1);
        assert(digits.take(k + 1).drop_last() =~= digits.take(k));
        assert(digits.take(k + 1).last() == digits[k]);
    }
}

/// Reads a number; `None` if the bytes do not write one.
pub fn parse(bytes: &[u8]) -> (r: Option<usize>)
    ensures
        r is Some <==> parsed(bytes@) is Some,
        r matches Some(n) ==> parsed(bytes@) == Some(n as nat),
{
    let len: usize = bytes.len();
    let start: usize = if len > 0 && bytes[0] == 43 {
        1
    } else {
        0
    };
    let ghost digits = unsigned_part(bytes@);
    assert(digits =~= bytes@.skip(start as int));
    if start == len {
        return None;
    }
    let mut value: usize = 0;
    let mut at: usize = start;
    assert(digits.take(0) =~= Seq::empty());
    while at < len
        invariant
            start <= at <= len,
            start <= 1,
            len == bytes@.len(),
            digits == bytes@.skip(start as int),
            digits == unsigned_part(bytes@),
            value == digits_value(digits.take(at - start)),
            all_digits(digits.take(at - start)),
        decreases len - at,
    {
        let byte: u8 = bytes[at];
        let ghost k = at - start;
        assert(digits[k] == byte);
        if byte < 48 || byte > 57 {
            assert(!all_digits(digits));
            return None;
        }
        let digit: usize = (byte - 48) as usize;
        proof {
            let longer = digits.take(k + 1);
            assert(longer.drop_last() =~= digits.take(k));
            assert(longer.last() == byte);
            assert forall|i: int| 0 <= i < longer.len() implies 48 <= #[trigger] longer[i] <= 57 by {
                if i < k {
                    assert(longer[i] == digits.take(k)[i]);
                }
            }
            if value > (usize::MAX - digit) / 10 {
                assert(10 * value + digit > usize::MAX);
                if all_digits(digits) {
                    lemma_value_grows(digits, k + 1);
                }
            }
        }
        if value > (usize::MAX - digit) / 10 {
            return None;
        }
        value = value * 10 + digit;
        at = at + 1;
    }
    assert(digits.take(len - start) =~= digits);
    Some(value)
}

pub proof fn lemma_decimal(n: nat)
    ensures
        decimal(n).len() > 0,
        all_digits(decimal(n)),
        digits_value(decimal(n)) == n,
    decreases n,
{
    reveal_with_fuel(digits_value, 2);
    if n < 10 {
        let d = decimal(n);
        assert(d.drop_last() =~= Seq::empty());
    } else {
        lemma_decimal(n / 10);
        let d = decimal(n);
        assert(d.drop_last() =~= decimal(n / 10));
        assert forall|i: int| 0 <= i < d.len() implies 48 <= #[trigger] d[i] <= 57 by {
            if i < d.len() - 1 {
                assert(d[i] == decimal(n / 10)[i]);
            }
        }
    }
}

/// Reading gives back the number that was written.
pub proof fn law_parse_decimal(n: nat)
    requires
        n <= usize::MAX,
    ensures
        parsed(decimal(n)) == Some(n),
{
    lemma_decimal(n);
    assert(48 <= decimal(n)[0]);
}

/// Writes `n` in decimal.
pub fn write(n: usize) -> (r: Vec<u8>)
    ensures
        r@ == decimal(n as nat),
    decreases n,
{
    let mut r: Vec<u8> = if n < 10 {
        Vec::new()
    } else {
        write(n / 10)
    };
    r.push(48 + (n % 10) as u8);
    assert(n < 10 ==> r@ =~= decimal(n as nat));
    r
}

/// A number is written with digits only, and without a zero at the front but for zero itself.
pub proof fn law_decimal_digits(n: nat)
    ensures
        decimal(n).len() > 0,
        forall|i: int| 0 <= i < decimal(n).len() ==> 48 <= #[trigger] decimal(n)[i] <= 57,
        n > 0 ==> decimal(n)[0] != 48,
        n < 10 ==> decimal(n).len() == 1,
    decreases n,
{
    lemma_decimal(n);
    if n >= 10 {
        law_decimal_digits(n / 10);
    }
}

/// One more digit multiplies by ten and adds the digit.
pub proof fn law_digits_value(digits: Seq<u8>, digit: u8)
    requires
        48 <= digit <= 57,
    ensures
        digits_value(Seq::empty()) == 0,
        digits_value(digits.push(digit)) == 10 * digits_value(digits) + (digit - 48),
{
    assert(digits.push(digit).drop_last() =~= digits);
}

/// Bytes are read as a number exactly if they are digits, at least one, of a number that fits in
/// `usize`, with or without a plus sign before them; as the number that the digits write.
pub proof fn law_parsed(digits: Seq<u8>, other: Seq<u8>, i: int)
    requires
        forall|k: int| 0 <= k < digits.len() ==> 48 <= #[trigger] digits[k] <= 57,
        0 <= i < other.len(),
        other[i] < 48 || other[i] > 57,
        i > 0 || other[0] != 43,
    ensures
        parsed(digits) is Some <==> digits.len() > 0 && digits_value(digits) <= usize::MAX,
        parsed(digits) is Some ==> parsed(digits) == Some(digits_value(digits)),
        parsed(seq![43u8] + digits) == parsed(digits),
        parsed(other) is None,
{
    let signed = seq![43u8] + digits;
    assert(signed.skip(1) =~= digits);
    if digits.len() > 0 {
        assert(48 <= digits[0]);
    }
    assert(unsigned_part(digits) == digits);
    assert(all_digits(digits));
    let rest = unsigned_part(other);
    if other[0] == 43 {
        assert(rest[i - 1] == other[i]);
    } else {
        assert(rest[i] == other[i]);
    }
    assert(!all_digits(rest));
}

} // verus!
