//! Character-level building blocks: decimal and hexadecimal digits, and the
//! growth of a `String` one character at a time.

use vstd::prelude::*;

verus! {

/// The ASCII character of the decimal digit `d` (`0 <= d < 10`).
pub open spec fn decimal_digit(d: int) -> char {
    (48 + d) as char
}

/// The lowercase ASCII character of the hexadecimal digit `d` (`0 <= d < 16`).
pub open spec fn lower_hex_digit(d: int) -> char {
    if d < 10 {
        (48 + d) as char
    } else {
        (87 + d) as char
    }
}

/// The decimal digits of `n`, with leading zeros so that at least `width`
/// digits are written (`width` 0 and 1 both write a lone `0` for zero).
pub open spec fn padded_decimal(n: nat, width: nat) -> Seq<char>
    decreases n + width,
{
    if n < 10 && width <= 1 {
        seq![decimal_digit(n as int)]
    } else {
        padded_decimal(n / 10, if width > 0 { (width - 1) as nat } else { 0 }).push(
            decimal_digit((n % 10) as int),
        )
    }
}

/// Appends one character to a `String` (`String::push`).
#[verifier::external_body]
pub fn push_char(out: &mut String, c: char)
    ensures
        final(out)@ == old(out)@.push(c),
{
    out.push(c);
}

/// The decimal digit character of `d`.
pub fn decimal_digit_char(d: u32) -> (c: char)
    requires
        d < 10,
    ensures
        c == decimal_digit(d as int),
{
    let b: u8 = 48u8 + (d as u8);
    b as char
}

/// Appends the decimal digits of `n`, zero-padded to at least `width` digits.
pub fn push_padded_decimal(out: &mut String, n: u32, width: u32)
    ensures
        final(out)@ == old(out)@ + padded_decimal(n as nat, width as nat),
    decreases n + width,
{
    if n < 10 && width <= 1 {
        let c: char = decimal_digit_char(n);
        push_char(out, c);
        assert(padded_decimal(n as nat, width as nat) == seq![decimal_digit(n as int)]);
        assert(old(out)@.push(c) =~= old(out)@ + seq![c]);
    } else {
        let next_width: u32 = if width > 0 { width - 1 } else { 0 };
        push_padded_decimal(out, n / 10, next_width);
        let c: char = decimal_digit_char(n % 10);
        push_char(out, c);
        assert(padded_decimal(n as nat, width as nat) == padded_decimal(
            (n / 10) as nat,
            next_width as nat,
        ).push(decimal_digit((n % 10) as int)));
        assert(out@ =~= old(out)@ + padded_decimal(n as nat, width as nat));
    }
}


/// Decimal digits name their value.
pub proof fn lemma_decimal_digit_injective(x: int, y: int)
    requires
        0 <= x < 10,
        0 <= y < 10,
        decimal_digit(x) == decimal_digit(y),
    ensures
        x == y,
{
}

/// Padded decimal text is made of decimal digits only.
pub proof fn lemma_padded_decimal_digits(n: nat, width: nat)
    ensures
        padded_decimal(n, width).len() >= 1,
        forall|i: int|
            0 <= i < padded_decimal(n, width).len() ==> '0' <= #[trigger] padded_decimal(
                n,
                width,
            )[i] <= '9',
    decreases n + width,
{
    if !(n < 10 && width <= 1) {
        let w: nat = if width > 0 { (width - 1) as nat } else { 0 };
        lemma_padded_decimal_digits(n / 10, w);
    }
}

/// A value below 100 written with two digits: its tens, then its units.
pub proof fn lemma_two_digits(n: nat)
    requires
        n < 100,
    ensures
        padded_decimal(n, 2) == seq![decimal_digit((n / 10) as int), decimal_digit((n % 10) as int)],
{
    assert(padded_decimal((n / 10) as nat, 1) == seq![decimal_digit((n / 10) as int)]);
    assert(padded_decimal(n, 2) =~= seq![
        decimal_digit((n / 10) as int),
        decimal_digit((n % 10) as int),
    ]);
}

/// Padded decimal text names its value.
pub proof fn lemma_padded_decimal_injective(n: nat, m: nat, width: nat)
    requires
        padded_decimal(n, width) == padded_decimal(m, width),
    ensures
        n == m,
    decreases n + m + width,
{
    let w: nat = if width > 0 { (width - 1) as nat } else { 0 };
    let base_n = n < 10 && width <= 1;
    let base_m = m < 10 && width <= 1;
    if base_n && base_m {
        assert(padded_decimal(n, width)[0] == decimal_digit(n as int));
        assert(padded_decimal(m, width)[0] == decimal_digit(m as int));
        lemma_decimal_digit_injective(n as int, m as int);
    } else if base_n {
        lemma_padded_decimal_digits(m / 10, w);
        assert(padded_decimal(m, width).len() >= 2);
    } else if base_m {
        lemma_padded_decimal_digits(n / 10, w);
        assert(padded_decimal(n, width).len() >= 2);
    } else {
        let pn = padded_decimal(n, width);
        let pm = padded_decimal(m, width);
        assert(pn.drop_last() =~= padded_decimal(n / 10, w));
        assert(pm.drop_last() =~= padded_decimal(m / 10, w));
        lemma_padded_decimal_injective(n / 10, m / 10, w);
        assert(pn.last() == decimal_digit((n % 10) as int));
        assert(pm.last() == decimal_digit((m % 10) as int));
        lemma_decimal_digit_injective((n % 10) as int, (m % 10) as int);
    }
}

} // verus!
