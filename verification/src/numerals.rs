//! Decimal numerals over character sequences.
//!
//! Service names carry a decimal ordinal (`safenode12`), and the durable
//! registry form stores every number as a fixed-width decimal field. Both
//! are specified here: `dec_of` is the ordinary (shortest) decimal numeral
//! of a number, `dec_fixed` its zero-padded fixed-width numeral, and
//! `dec_val` reads a numeral back. `dec_of` is proved injective, which the
//! resource allocator needs to show that distinct ordinals give distinct
//! service names.

use vstd::prelude::*;
use vstd::arithmetic::div_mod::lemma_fundamental_div_mod;
use vstd::arithmetic::div_mod::lemma_multiply_divide_lt;
use vstd::arithmetic::mul::lemma_mul_inequality;

verus! {

/// Ten to the power `e`.
pub open spec fn pow10(e: nat) -> nat
    decreases e,
{
    if e == 0 {
        1
    } else {
        10 * pow10((e - 1) as nat)
    }
}

/// The decimal digit character for `d` (values ten and above are clamped;
/// the functions below only apply it to digits).
pub open spec fn dec_digit(d: nat) -> char {
    if d == 0 {
        '0'
    } else if d == 1 {
        '1'
    } else if d == 2 {
        '2'
    } else if d == 3 {
        '3'
    } else if d == 4 {
        '4'
    } else if d == 5 {
        '5'
    } else if d == 6 {
        '6'
    } else if d == 7 {
        '7'
    } else if d == 8 {
        '8'
    } else {
        '9'
    }
}

/// The numeric value of a decimal digit character (zero for any other
/// character).
pub open spec fn char_val(c: char) -> nat {
    if c == '0' {
        0
    } else if c == '1' {
        1
    } else if c == '2' {
        2
    } else if c == '3' {
        3
    } else if c == '4' {
        4
    } else if c == '5' {
        5
    } else if c == '6' {
        6
    } else if c == '7' {
        7
    } else if c == '8' {
        8
    } else if c == '9' {
        9
    } else {
        0
    }
}

/// Whether `c` is a decimal digit character.
pub open spec fn is_dec_digit(c: char) -> bool {
    c == '0' || c == '1' || c == '2' || c == '3' || c == '4' || c == '5' || c == '6' || c == '7'
        || c == '8' || c == '9'
}

/// The shortest decimal numeral of `n`, most significant digit first.
pub open spec fn dec_of(n: nat) -> Seq<char>
    decreases n,
{
    if n < 10 {
        seq![dec_digit(n)]
    } else {
        dec_of(n / 10).push(dec_digit(n % 10))
    }
}

/// The value a decimal numeral denotes.
pub open spec fn dec_val(s: Seq<char>) -> nat
    decreases s.len(),
{
    if s.len() == 0 {
        0
    } else {
        dec_val(s.drop_last()) * 10 + char_val(s.last())
    }
}

/// The fixed-width decimal numeral of `n`, zero padded to `w` digits,
/// most significant digit first. Faithful for `n < pow10(w)`.
pub open spec fn dec_fixed(n: nat, w: nat) -> Seq<char>
    decreases w,
{
    if w == 0 {
        Seq::empty()
    } else {
        seq![dec_digit(n / pow10((w - 1) as nat))] + dec_fixed(
            n % pow10((w - 1) as nat),
            (w - 1) as nat,
        )
    }
}

/// `dec_of` denotes the number it was built from.
pub proof fn lemma_dec_val_of(n: nat)
    ensures
        dec_val(dec_of(n)) == n,
        dec_of(n).len() >= 1,
    decreases n,
{
    if n < 10 {
        assert(dec_of(n).drop_last() =~= Seq::<char>::empty());
        assert(dec_val(Seq::<char>::empty()) == 0);
        assert(dec_val(dec_of(n)) == dec_val(dec_of(n).drop_last()) * 10 + char_val(
            dec_of(n).last(),
        ));
        assert(dec_of(n).last() == dec_digit(n));
        assert(char_val(dec_digit(n)) == n);
    } else {
        lemma_dec_val_of(n / 10);
        assert(dec_of(n).drop_last() =~= dec_of(n / 10));
        assert(dec_of(n).last() == dec_digit(n % 10));
        assert(char_val(dec_digit(n % 10)) == n % 10);
        lemma_fundamental_div_mod(n as int, 10);
    }
}

/// Distinct numbers have distinct decimal numerals.
pub proof fn lemma_dec_of_injective(a: nat, b: nat)
    requires
        dec_of(a) == dec_of(b),
    ensures
        a == b,
{
    lemma_dec_val_of(a);
    lemma_dec_val_of(b);
}

/// `pow10` is positive.
pub proof fn lemma_pow10_pos(e: nat)
    ensures
        pow10(e) >= 1,
    decreases e,
{
    if e > 0 {
        lemma_pow10_pos((e - 1) as nat);
    }
}

/// `pow10` is monotonic.
pub proof fn lemma_pow10_mono(a: nat, b: nat)
    requires
        a <= b,
    ensures
        pow10(a) <= pow10(b),
    decreases b,
{
    if a < b {
        lemma_pow10_mono(a, (b - 1) as nat);
        lemma_pow10_pos((b - 1) as nat);
    }
}

/// Concrete powers of ten at the widths the registry format uses.
pub proof fn lemma_pow10_values()
    ensures
        pow10(19) == 10_000_000_000_000_000_000,
        pow10(20) == 100_000_000_000_000_000_000,
{
    reveal_with_fuel(pow10, 21);
}

/// Every `u64` fits in twenty decimal digits.
pub proof fn lemma_u64_fits_20_digits(n: u64)
    ensures
        (n as nat) < pow10(20),
{
    lemma_pow10_values();
}

/// A one-character string slice for the digit `d`.
fn digit_str(d: u64) -> (r: &'static str)
    requires
        d < 10,
    ensures
        r@ == seq![dec_digit(d as nat)],
{
    if d == 0 {
        proof {
            reveal_strlit("0");
            assert("0"@ =~= seq![dec_digit(0)]);
        }
        "0"
    } else if d == 1 {
        proof {
            reveal_strlit("1");
            assert("1"@ =~= seq![dec_digit(1)]);
        }
        "1"
    } else if d == 2 {
        proof {
            reveal_strlit("2");
            assert("2"@ =~= seq![dec_digit(2)]);
        }
        "2"
    } else if d == 3 {
        proof {
            reveal_strlit("3");
            assert("3"@ =~= seq![dec_digit(3)]);
        }
        "3"
    } else if d == 4 {
        proof {
            reveal_strlit("4");
            assert("4"@ =~= seq![dec_digit(4)]);
        }
        "4"
    } else if d == 5 {
        proof {
            reveal_strlit("5");
            assert("5"@ =~= seq![dec_digit(5)]);
        }
        "5"
    } else if d == 6 {
        proof {
            reveal_strlit("6");
            assert("6"@ =~= seq![dec_digit(6)]);
        }
        "6"
    } else if d == 7 {
        proof {
            reveal_strlit("7");
            assert("7"@ =~= seq![dec_digit(7)]);
        }
        "7"
    } else if d == 8 {
        proof {
            reveal_strlit("8");
            assert("8"@ =~= seq![dec_digit(8)]);
        }
        "8"
    } else {
        proof {
            reveal_strlit("9");
            assert("9"@ =~= seq![dec_digit(9)]);
        }
        "9"
    }
}

/// Appends the shortest decimal numeral of `n` to `out`.
pub fn push_dec(n: u64, out: &mut String)
    ensures
        final(out)@ == old(out)@ + dec_of(n as nat),
    decreases n,
{
    if n >= 10 {
        push_dec(n / 10, out);
        let d = digit_str(n % 10);
        out.append(d);
        proof {
            assert((n / 10) as nat == (n as nat) / 10);
            assert((n % 10) as nat == (n as nat) % 10);
            assert(old(out)@ + dec_of(n as nat) =~= old(out)@ + dec_of((n as nat) / 10) + seq![
                dec_digit((n as nat) % 10),
            ]);
        }
    } else {
        let d = digit_str(n);
        out.append(d);
    }
}

/// Ten to the power `e`, executable.
pub fn pow10_u64(e: u64) -> (r: u64)
    requires
        e <= 19,
    ensures
        r as nat == pow10(e as nat),
{
    let mut r: u64 = 1;
    let mut i: u64 = 0;
    while i < e
        invariant
            i <= e,
            e <= 19,
            r as nat == pow10(i as nat),
        decreases e - i,
    {
        proof {
            lemma_pow10_mono(i as nat, 18);
            lemma_pow10_values();
            reveal_with_fuel(pow10, 21);
        }
        r = r * 10;
        i = i + 1;
    }
    r
}

/// Appends the `w`-digit zero-padded decimal numeral of `n` to `out`.
pub fn push_dec_fixed(n: u64, w: u64, out: &mut String)
    requires
        w <= 20,
        (n as nat) < pow10(w as nat),
    ensures
        final(out)@ == old(out)@ + dec_fixed(n as nat, w as nat),
    decreases w,
{
    if w == 0 {
        proof {
            assert(old(out)@ + dec_fixed(n as nat, 0) =~= old(out)@);
        }
    } else {
        let p = pow10_u64(w - 1);
        proof {
            lemma_pow10_pos((w - 1) as nat);
            assert(pow10(w as nat) == 10 * pow10((w - 1) as nat));
            lemma_multiply_divide_lt(n as int, p as int, 10);
        }
        let d = n / p;
        let m = n % p;
        let ds = digit_str(d);
        out.append(ds);
        proof {
            assert((d as nat) == (n as nat) / pow10((w - 1) as nat));
            assert((m as nat) == (n as nat) % pow10((w - 1) as nat));
        }
        push_dec_fixed(m, w - 1, out);
        proof {
            assert(old(out)@ + dec_fixed(n as nat, w as nat) =~= old(out)@ + seq![
                dec_digit((n as nat) / pow10((w - 1) as nat)),
            ] + dec_fixed((n as nat) % pow10((w - 1) as nat), (w - 1) as nat));
        }
    }
}

} // verus!
