//! Rendering of integers as text: decimal, zero-padded decimal, signed
//! decimal and fixed-width binary, appended to a `String`.
use vstd::prelude::*;
use vstd::string::*;

verus! {

/// The ASCII character of the decimal digit `d` (`0 <= d < 10`).
pub open spec fn digit_char(d: nat) -> char {
    if d == 0 {
        '0'
    } else if d == 1 {
        '1'
    } else if d == 2 {
        '2'
    } else if d == 3 {
        '3'
    } else if d == 4 {
        '4'
    } else if d == 5 {
        '5'
    } else if d == 6 {
        '6'
    } else if d == 7 {
        '7'
    } else if d == 8 {
        '8'
    } else {
        '9'
    }
}

/// The shortest decimal rendering of `n`, as `format!("{}", n)` writes it.
pub open spec fn decimal(n: nat) -> Seq<char>
    decreases n,
{
    if n < 10 {
        seq![digit_char(n)]
    } else {
        decimal(n / 10).push(digit_char(n % 10))
    }
}

/// Decimal rendering of `n` with at least two digits, as `format!("{:02}", n)` writes it.
pub open spec fn decimal_pad2(n: nat) -> Seq<char> {
    if n < 10 {
        seq!['0'] + decimal(n)
    } else {
        decimal(n)
    }
}

/// Decimal rendering of a signed integer, with a leading `-` when negative.
pub open spec fn signed_decimal(n: int) -> Seq<char> {
    if n < 0 {
        seq!['-'] + decimal((-n) as nat)
    } else {
        decimal(n as nat)
    }
}

/// The `width` lowest binary digits of `n`, most significant first
/// (`format!("{:08b}", b)` for a byte `b` is `binary(b, 8)`).
pub open spec fn binary(n: nat, width: nat) -> Seq<char>
    decreases width,
{
    if width == 0 {
        Seq::empty()
    } else {
        binary(n / 2, (width - 1) as nat).push(if n % 2 == 1 { '1' } else { '0' })
    }
}

/// The number that a string of decimal digits spells.
pub open spec fn digits_value(s: Seq<char>) -> int
    decreases s.len(),
{
    if s.len() == 0 {
        0
    } else {
        digits_value(s.drop_last()) * 10 + (s.last() as int - '0' as int)
    }
}

/// Whether every character of `s` is a decimal digit.
pub open spec fn all_digits(s: Seq<char>) -> bool {
    forall|i: int| 0 <= i < s.len() ==> '0' <= #[trigger] s[i] <= '9'
}

/// Whether every character of `s` is a binary digit.
pub open spec fn all_bits(s: Seq<char>) -> bool {
    forall|i: int| 0 <= i < s.len() ==> #[trigger] s[i] == '0' || s[i] == '1'
}

/// The number that a string of binary digits spells.
pub open spec fn bits_value(s: Seq<char>) -> int
    decreases s.len(),
{
    if s.len() == 0 {
        0
    } else {
        bits_value(s.drop_last()) * 2 + if s.last() == '1' {
            1int
        } else {
            0
        }
    }
}

proof fn lemma_digits_value_push(p: Seq<char>, c: char)
    ensures
        digits_value(p.push(c)) == digits_value(p) * 10 + (c as int - '0' as int),
{
    assert(p.push(c).drop_last() =~= p);
}

proof fn lemma_digit_char(d: nat)
    requires
        d < 10,
    ensures
        digit_char(d) as int - '0' as int == d,
        '0' <= digit_char(d) <= '9',
        d != 0 ==> digit_char(d) != '0',
{
}

/// The decimal rendering of `n` is made of digits that spell `n`, with no
/// leading zero.
pub proof fn lemma_decimal_spells(n: nat)
    ensures
        all_digits(decimal(n)),
        digits_value(decimal(n)) == n,
        decimal(n).len() >= 1,
        decimal(n).len() > 1 ==> decimal(n)[0] != '0',
    decreases n,
{
    if n < 10 {
        lemma_digit_char(n);
        assert(decimal(n) =~= Seq::<char>::empty().push(digit_char(n)));
        lemma_digits_value_push(Seq::<char>::empty(), digit_char(n));
    } else {
        lemma_decimal_spells(n / 10);
        lemma_digit_char(n % 10);
        let p = decimal(n / 10);
        lemma_digits_value_push(p, digit_char(n % 10));
        assert(decimal(n)[0] == p[0]);
        if n / 10 < 10 {
            lemma_digit_char(n / 10);
            assert(p =~= seq![digit_char(n / 10)]);
        } else {
            lemma_decimal_spells(n / 10 / 10);
            assert(p.len() > 1);
        }
    }
}

/// The padded rendering spells `n` in at least two digits.
pub proof fn lemma_decimal_pad2_spells(n: nat)
    ensures
        all_digits(decimal_pad2(n)),
        digits_value(decimal_pad2(n)) == n,
        decimal_pad2(n).len() >= 2,
{
    lemma_decimal_spells(n);
    if n < 10 {
        lemma_digit_char(n);
        assert(decimal_pad2(n) =~= seq!['0'].push(digit_char(n)));
        lemma_digits_value_push(Seq::<char>::empty(), '0');
        assert(seq!['0'] =~= Seq::<char>::empty().push('0'));
        lemma_digits_value_push(seq!['0'], digit_char(n));
    } else {
        assert(decimal(n).len() >= 2) by {
            if decimal(n).len() == 1 {
                assert(decimal(n) =~= decimal(n / 10).push(digit_char(n % 10)));
                lemma_decimal_spells(n / 10);
            }
        }
    }
}

/// The binary rendering of `n` in `width` digits spells `n` modulo 2 to the
/// `width`.
pub proof fn lemma_binary_spells(n: nat, width: nat)
    ensures
        binary(n, width).len() == width,
        all_bits(binary(n, width)),
        bits_value(binary(n, width)) == (n as int) % (vstd::arithmetic::power2::pow2(width) as int),
    decreases width,
{
    vstd::arithmetic::power2::lemma_pow2_pos(width);
    if width == 0 {
        vstd::arithmetic::power2::lemma2_to64();
    } else {
        lemma_binary_spells(n / 2, (width - 1) as nat);
        let b = binary(n, width);
        let rest = binary(n / 2, (width - 1) as nat);
        assert(b.drop_last() =~= rest);
        let p = vstd::arithmetic::power2::pow2((width - 1) as nat) as int;
        vstd::arithmetic::power2::lemma_pow2_unfold(width);
        vstd::arithmetic::power2::lemma_pow2_pos((width - 1) as nat);
        lemma_mod_split(n as int, p);
        assert(bits_value(b) == bits_value(rest) * 2 + (n as int) % 2);
        assert(bits_value(rest) == (n / 2) as int % p);
    }
}

proof fn lemma_mod_split(n: int, p: int)
    requires
        n >= 0,
        p > 0,
    ensures
        (n / 2) % p * 2 + n % 2 == n % (2 * p),
{
    vstd::arithmetic::div_mod::lemma_fundamental_div_mod(n, 2);
    vstd::arithmetic::div_mod::lemma_fundamental_div_mod(n / 2, p);
    vstd::arithmetic::div_mod::lemma_mod_bound(n / 2, p);
    vstd::arithmetic::div_mod::lemma_mod_bound(n, 2);
    let q = (n / 2) / p;
    let r = (n / 2) % p;
    assert(n == (2 * p) * q + (2 * r + n % 2)) by (nonlinear_arith)
        requires
            n == 2 * (n / 2) + n % 2,
            n / 2 == p * q + r,
    ;
    vstd::arithmetic::div_mod::lemma_fundamental_div_mod_converse_mod(n, 2 * p, q, 2 * r + n % 2);
}

/// A one-character string holding the decimal digit `d`.
fn digit_str(d: u64) -> (r: &'static str)
    requires
        d < 10,
    ensures
        r@ == seq![digit_char(d as nat)],
{
    proof {
        reveal_strlit("0");
        reveal_strlit("1");
        reveal_strlit("2");
        reveal_strlit("3");
        reveal_strlit("4");
        reveal_strlit("5");
        reveal_strlit("6");
        reveal_strlit("7");
        reveal_strlit("8");
        reveal_strlit("9");
    }
    if d == 0 {
        "0"
    } else if d == 1 {
        "1"
    } else if d == 2 {
        "2"
    } else if d == 3 {
        "3"
    } else if d == 4 {
        "4"
    } else if d == 5 {
        "5"
    } else if d == 6 {
        "6"
    } else if d == 7 {
        "7"
    } else if d == 8 {
        "8"
    } else {
        "9"
    }
}

/// Appends the decimal rendering of `n` to `s`.
pub fn push_decimal(s: &mut String, n: u64)
    ensures
        final(s)@ == old(s)@ + decimal(n as nat),
    decreases n,
{
    if n >= 10 {
        push_decimal(s, n / 10);
    }
    s.append(digit_str(n % 10));
    proof {
        if n >= 10 {
            assert(old(s)@ + decimal((n / 10) as nat) + seq![digit_char((n % 10) as nat)] =~= old(s)@
                + decimal(n as nat));
        } else {
            assert(n % 10 == n);
        }
    }
}

/// Appends the decimal rendering of `n`, padded with a zero to two digits.
pub fn push_decimal_pad2(s: &mut String, n: u64)
    ensures
        final(s)@ == old(s)@ + decimal_pad2(n as nat),
{
    if n < 10 {
        proof {
            reveal_strlit("0");
        }
        s.append("0");
    }
    push_decimal(s, n);
    assert(final(s)@ =~= old(s)@ + decimal_pad2(n as nat));
}

/// Appends the decimal rendering of a signed integer.
pub fn push_signed_decimal(s: &mut String, n: i32)
    ensures
        final(s)@ == old(s)@ + signed_decimal(n as int),
{
    if n < 0 {
        proof {
            reveal_strlit("-");
        }
        s.append("-");
        let magnitude: u64 = (0i64 - (n as i64)) as u64;
        push_decimal(s, magnitude);
        assert(final(s)@ =~= old(s)@ + signed_decimal(n as int));
    } else {
        push_decimal(s, n as u64);
    }
}

/// Appends the `width` lowest binary digits of `n`, most significant first.
pub fn push_binary(s: &mut String, n: u64, width: u64)
    ensures
        final(s)@ == old(s)@ + binary(n as nat, width as nat),
    decreases width,
{
    if width > 0 {
        push_binary(s, n / 2, width - 1);
        proof {
            reveal_strlit("0");
            reveal_strlit("1");
        }
        if n % 2 == 1 {
            s.append("1");
        } else {
            s.append("0");
        }
        assert(final(s)@ =~= old(s)@ + binary(n as nat, width as nat));
    } else {
        assert(final(s)@ =~= old(s)@ + binary(n as nat, width as nat));
    }
}

} // verus!
