use vstd::prelude::*;

verus! {

/// `c` is one of `0` to `9`.
pub open spec fn is_digit(c: char) -> bool {
    '0' <= c && c <= '9'
}

/// Every character of `d` is a digit.
pub open spec fn all_digits(d: Seq<char>) -> bool {
    forall|i: int| 0 <= i < d.len() ==> is_digit(#[trigger] d[i])
}

/// The value of the digit `c`.
pub open spec fn digit_value(c: char) -> nat {
    (c as int - '0' as int) as nat
}

/// The digit that stands for `d`, for `d` below ten.
pub open spec fn digit_char(d: nat) -> char {
    ('0' as int + d) as char
}

/// The number that the digits `d` write in base ten, most significant first.
pub open spec fn digits_value(d: Seq<char>) -> nat
    decreases d.len(),
{
    if d.len() == 0 {
        0
    } else {
        digits_value(d.drop_last()) * 10 + digit_value(d.last())
    }
}

/// The base-ten digits of `n`, most significant first, without leading zeros.
pub open spec fn decimal_digits(n: nat) -> Seq<char>
    decreases n,
{
    if n < 10 {
        seq![digit_char(n)]
    } else {
        decimal_digits(n / 10) + seq![digit_char(n % 10)]
    }
}

/// What reading the digits `d` as a `u32` gives: nothing for no digits or
/// for a value above `u32::MAX`.
pub open spec fn decimal_u32(d: Seq<char>) -> Option<u32> {
    if d.len() == 0 || digits_value(d) > u32::MAX {
        None
    } else {
        Some(digits_value(d) as u32)
    }
}

/// A prefix of a run of digits is worth no more than the whole run.
pub proof fn lemma_prefix_value_le(d: Seq<char>, k: int)
    requires
        0 <= k <= d.len(),
    ensures
        digits_value(d.take(k)) <= digits_value(d),
    decreases d.len(),
{
    if k < d.len() {
        lemma_prefix_value_le(d.drop_last(), k);
        assert(d.drop_last().take(k) =~= d.take(k));
    } else {
        assert(d.take(k) =~= d);
    }
}

/// Appending one digit multiplies by ten and adds the digit.
pub proof fn lemma_value_push(d: Seq<char>, c: char)
    ensures
        digits_value(d.push(c)) == digits_value(d) * 10 + digit_value(c),
{
    assert(d.push(c).drop_last() =~= d);
}

/// The digit that stands for `d` is a digit and is worth `d`.
pub proof fn lemma_digit_char(d: nat)
    requires
        d < 10,
    ensures
        is_digit(digit_char(d)),
        digit_value(digit_char(d)) == d,
{
    assert(('0' as int + d) as char as int == '0' as int + d);
}

/// Law: the decimal digits of a number are digits, there is at least one,
/// and they are worth the number again.
pub proof fn lemma_decimal_round_trip(n: nat)
    ensures
        decimal_digits(n).len() > 0,
        all_digits(decimal_digits(n)),
        digits_value(decimal_digits(n)) == n,
    decreases n,
{
    if n < 10 {
        lemma_digit_char(n);
        lemma_value_push(Seq::<char>::empty(), digit_char(n));
        assert(decimal_digits(n) =~= Seq::<char>::empty().push(digit_char(n)));
    } else {
        lemma_decimal_round_trip(n / 10);
        lemma_digit_char(n % 10);
        let d = decimal_digits(n / 10);
        lemma_value_push(d, digit_char(n % 10));
        assert(decimal_digits(n) =~= d.push(digit_char(n % 10)));
        assert(n == (n / 10) * 10 + n % 10);
    }
}

/// Law: reading back the decimal digits of a `u32` gives the same `u32`.
pub proof fn lemma_decimal_u32_round_trip(n: u32)
    ensures
        decimal_u32(decimal_digits(n as nat)) == Some(n),
{
    lemma_decimal_round_trip(n as nat);
}

/// Reads `d[from..to]`, all of it digits, as a `u32`; `None` when the range
/// is empty or the value does not fit.
pub fn parse_decimal_u32(d: &Vec<char>, from: usize, to: usize) -> (res: Option<u32>)
    requires
        from <= to <= d.len(),
        all_digits(d@.subrange(from as int, to as int)),
    ensures
        res == decimal_u32(d@.subrange(from as int, to as int)),
{
    let ghost digits = d@.subrange(from as int, to as int);
    if from == to {
        return None;
    }
    let mut acc: u64 = 0;
    let mut i: usize = from;
    while i < to
        invariant
            from <= i <= to <= d.len(),
            digits == d@.subrange(from as int, to as int),
            all_digits(digits),
            acc == digits_value(digits.take(i - from)),
            acc <= u32::MAX,
        decreases to - i,
    {
        let c = d[i];
        assert(is_digit(digits[i - from]));
        let v: u64 = (c as u32 - '0' as u32) as u64;
        proof {
            lemma_value_push(digits.take(i - from), c);
            assert(digits.take(i - from).push(c) =~= digits.take(i + 1 - from));
        }
        let next: u64 = acc * 10 + v;
        if next > 0xffff_ffff {
            proof {
                lemma_prefix_value_le(digits, i + 1 - from);
            }
            return None;
        }
        acc = next;
        i = i + 1;
    }
    assert(digits.take(to - from) =~= digits);
    Some(acc as u32)
}

/// `std::string::String::push`: appends one character.
#[verifier::external_body]
pub(crate) fn push_char(s: &mut String, c: char)
    ensures
        final(s)@ == old(s)@.push(c),
{
    s.push(c)
}

/// Appends the decimal digits of `n` to `out`.
pub fn push_decimal(out: &mut String, n: u32)
    ensures
        final(out)@ == old(out)@ + decimal_digits(n as nat),
    decreases n,
{
    if n >= 10 {
        push_decimal(out, n / 10);
    }
    let d: u32 = n % 10;
    let c: char = ((d as u8) + 48u8) as char;
    assert(c == digit_char(d as nat));
    push_char(out, c);
    assert(decimal_digits(n as nat) == if n < 10 {
        seq![digit_char(n as nat)]
    } else {
        decimal_digits((n / 10) as nat) + seq![digit_char((n % 10) as nat)]
    });
}

} // verus!
