//! Mathematical model of unsigned integers written as big-endian bytes and as
//! decimal text.

use vstd::prelude::*;

verus! {

/// The value of a big-endian byte string (the empty string is zero).
pub open spec fn be_value(bytes: Seq<u8>) -> nat
    decreases bytes.len(),
{
    if bytes.len() == 0 {
        0
    } else {
        be_value(bytes.drop_last()) * 256 + bytes.last() as nat
    }
}

/// The shortest big-endian byte string of `n`: no leading zero byte, and a
/// single zero byte for zero.
pub open spec fn be_bytes(n: nat) -> Seq<u8>
    decreases n,
{
    if n < 256 {
        seq![n as u8]
    } else {
        be_bytes(n / 256).push((n % 256) as u8)
    }
}

/// Reading back the shortest encoding of `n` gives `n`.
pub proof fn lemma_be_value_of_be_bytes(n: nat)
    ensures
        be_value(be_bytes(n)) == n,
    decreases n,
{
    let s = be_bytes(n);
    if n < 256 {
        assert(s.drop_last() =~= Seq::<u8>::empty());
        assert((n as u8) as nat == n);
        assert(s.last() as nat == n);
        assert(be_value(s) == be_value(s.drop_last()) * 256 + s.last() as nat);
    } else {
        lemma_be_value_of_be_bytes(n / 256);
        assert(s.drop_last() =~= be_bytes(n / 256));
        assert(((n % 256) as u8) as nat == n % 256);
        assert(s.last() as nat == n % 256);
        assert(be_value(s) == be_value(s.drop_last()) * 256 + s.last() as nat);
        assert(n == (n / 256) * 256 + n % 256);
    }
}

} // verus!

verus! {

/// An ASCII decimal digit.
pub open spec fn is_decimal_digit(c: char) -> bool {
    '0' <= c && c <= '9'
}

/// The character of the decimal digit `d` (`d < 10`).
pub open spec fn digit_char(d: nat) -> char
    recommends
        d < 10,
{
    (d + 48) as char
}

/// The number that the decimal digit `c` stands for.
pub open spec fn digit_value(c: char) -> nat
    recommends
        is_decimal_digit(c),
{
    (c as int - 48) as nat
}

/// The decimal text of `n`: most significant digit first, no leading zero,
/// and "0" for zero.
pub open spec fn decimal_digits(n: nat) -> Seq<char>
    decreases n,
{
    if n < 10 {
        seq![digit_char(n)]
    } else {
        decimal_digits(n / 10).push(digit_char(n % 10))
    }
}

/// The part of a decimal literal that holds its digits: one leading '+' is
/// dropped, unless a second '+' follows it.
pub open spec fn decimal_literal_body(s: Seq<char>) -> Seq<char> {
    if s.len() > 0 && s[0] == '+' && !(s.len() > 1 && s[1] == '+') {
        s.drop_first()
    } else {
        s
    }
}

/// A decimal literal: after the optional '+', a non-empty run of decimal digits
/// and '_' separators that starts with a digit.
pub open spec fn is_decimal_literal(s: Seq<char>) -> bool {
    let t = decimal_literal_body(s);
    &&& t.len() > 0
    &&& t[0] != '_'
    &&& forall|i: int| 0 <= i < t.len() ==> is_decimal_digit(#[trigger] t[i]) || t[i] == '_'
}

/// The number that a run of digits and '_' separators stands for, the
/// separators ignored.
pub open spec fn digits_value(t: Seq<char>) -> nat
    decreases t.len(),
{
    if t.len() == 0 {
        0
    } else if t.last() == '_' {
        digits_value(t.drop_last())
    } else {
        digits_value(t.drop_last()) * 10 + digit_value(t.last())
    }
}

/// The number that a decimal literal stands for.
pub open spec fn decimal_literal_value(s: Seq<char>) -> nat {
    digits_value(decimal_literal_body(s))
}

/// The decimal text of a number is a non-empty run of digits, and reading it
/// back gives the number.
pub proof fn lemma_decimal_digits(n: nat)
    ensures
        decimal_digits(n).len() > 0,
        forall|i: int|
            0 <= i < decimal_digits(n).len() ==> is_decimal_digit(#[trigger] decimal_digits(n)[i]),
        digits_value(decimal_digits(n)) == n,
    decreases n,
{
    let s = decimal_digits(n);
    if n < 10 {
        assert(s.drop_last() =~= Seq::<char>::empty());
        assert(digit_char(n) as int == n + 48);
        assert(s.last() != '_');
        assert(digit_value(s.last()) == n);
        assert(digits_value(s) == digits_value(s.drop_last()) * 10 + digit_value(s.last()));
    } else {
        lemma_decimal_digits(n / 10);
        assert(s.drop_last() =~= decimal_digits(n / 10));
        assert(digit_char(n % 10) as int == n % 10 + 48);
        assert(n == (n / 10) * 10 + n % 10);
        assert(s.last() != '_');
        assert(digit_value(s.last()) == n % 10);
        assert(digits_value(s) == digits_value(s.drop_last()) * 10 + digit_value(s.last()));
        assert forall|i: int| 0 <= i < s.len() implies is_decimal_digit(#[trigger] s[i]) by {
            if i < s.len() - 1 {
                assert(s[i] == decimal_digits(n / 10)[i]);
            }
        }
    }
}

/// The decimal text of a number is a decimal literal of that number.
pub proof fn lemma_decimal_digits_literal(n: nat)
    ensures
        is_decimal_literal(decimal_digits(n)),
        decimal_literal_value(decimal_digits(n)) == n,
        is_decimal_digit(decimal_digits(n)[0]),
{
    lemma_decimal_digits(n);
    let s = decimal_digits(n);
    assert(is_decimal_digit(s[0]));
    assert(decimal_literal_body(s) == s);
}

/// The lowercase hexadecimal character of the nibble `d` (`d < 16`).
pub open spec fn hex_char_lower(d: nat) -> char
    recommends
        d < 16,
{
    if d < 10 {
        (d + 48) as char
    } else {
        (d + 87) as char
    }
}

/// Lowercase hexadecimal text of a byte string: two characters per byte, high
/// nibble first.
pub open spec fn lower_hex(bytes: Seq<u8>) -> Seq<char>
    decreases bytes.len(),
{
    if bytes.len() == 0 {
        Seq::empty()
    } else {
        lower_hex(bytes.drop_last()) + seq![
            hex_char_lower(bytes.last() as nat / 16),
            hex_char_lower(bytes.last() as nat % 16),
        ]
    }
}

} // verus!

verus! {

/// A byte string whose first byte is not zero stands for a positive number.
pub proof fn lemma_be_value_positive(bytes: Seq<u8>)
    requires
        bytes.len() > 0,
        bytes[0] != 0,
    ensures
        be_value(bytes) > 0,
    decreases bytes.len(),
{
    if bytes.len() > 1 {
        lemma_be_value_positive(bytes.drop_last());
    }
}

/// A byte string without a leading zero byte (or the single byte zero) is the
/// shortest encoding of its own value.
pub proof fn lemma_be_bytes_of_be_value(bytes: Seq<u8>)
    requires
        bytes.len() > 0,
        bytes[0] != 0 || bytes.len() == 1,
    ensures
        be_bytes(be_value(bytes)) == bytes,
    decreases bytes.len(),
{
    let n = be_value(bytes);
    if bytes.len() == 1 {
        assert(bytes.drop_last() =~= Seq::<u8>::empty());
        assert(n == bytes[0] as nat);
        assert(be_bytes(n) =~= bytes);
    } else {
        let prefix = bytes.drop_last();
        lemma_be_value_positive(prefix);
        lemma_be_bytes_of_be_value(prefix);
        assert(n == be_value(prefix) * 256 + bytes.last() as nat);
        assert(n / 256 == be_value(prefix));
        assert(n % 256 == bytes.last() as nat);
        assert(be_bytes(n) =~= prefix.push(bytes.last()));
        assert(prefix.push(bytes.last()) =~= bytes);
    }
}

} // verus!

verus! {

/// `k` zero bytes.
pub open spec fn zero_bytes(k: nat) -> Seq<u8> {
    Seq::new(k, |i: int| 0u8)
}

/// The 256-bit (32-byte) big-endian form of `n`: its shortest encoding with
/// zero bytes in front up to 32 bytes. A number of 2^256 or more does not fit,
/// and keeps its shortest encoding.
pub open spec fn be_bytes_32(n: nat) -> Seq<u8> {
    let b = be_bytes(n);
    if b.len() < 32 {
        zero_bytes((32 - b.len()) as nat) + b
    } else {
        b
    }
}

/// `256^k`.
pub open spec fn pow256(k: nat) -> nat
    decreases k,
{
    if k == 0 {
        1
    } else {
        256 * pow256((k - 1) as nat)
    }
}

/// A leading zero byte does not change the value.
pub proof fn lemma_be_value_drop_leading_zero(s: Seq<u8>)
    requires
        s.len() > 0,
        s[0] == 0,
    ensures
        be_value(s) == be_value(s.drop_first()),
    decreases s.len(),
{
    if s.len() == 1 {
        assert(s.drop_last() =~= Seq::<u8>::empty());
        assert(s.drop_first() =~= Seq::<u8>::empty());
    } else {
        let p = s.drop_last();
        lemma_be_value_drop_leading_zero(p);
        assert(s.drop_first().drop_last() =~= p.drop_first());
        assert(s.drop_first().last() == s.last());
    }
}

/// Zero bytes in front do not change the value.
pub proof fn lemma_be_value_zero_prefix(k: nat, t: Seq<u8>)
    ensures
        be_value(zero_bytes(k) + t) == be_value(t),
    decreases k,
{
    if k == 0 {
        assert(zero_bytes(k) + t =~= t);
    } else {
        let s = zero_bytes(k) + t;
        lemma_be_value_drop_leading_zero(s);
        assert(s.drop_first() =~= zero_bytes((k - 1) as nat) + t);
        lemma_be_value_zero_prefix((k - 1) as nat, t);
    }
}

/// The 32-byte form of `n` reads back as `n`.
pub proof fn lemma_be_value_of_be_bytes_32(n: nat)
    ensures
        be_value(be_bytes_32(n)) == n,
{
    lemma_be_value_of_be_bytes(n);
    let b = be_bytes(n);
    if b.len() < 32 {
        lemma_be_value_zero_prefix((32 - b.len()) as nat, b);
    }
}

/// Any non-empty byte string is its value's shortest encoding with zero bytes
/// in front.
pub proof fn lemma_strip_leading_zeros(s: Seq<u8>)
    requires
        s.len() > 0,
    ensures
        be_bytes(be_value(s)).len() <= s.len(),
        s == zero_bytes((s.len() - be_bytes(be_value(s)).len()) as nat) + be_bytes(be_value(s)),
    decreases s.len(),
{
    if s[0] != 0 || s.len() == 1 {
        lemma_be_bytes_of_be_value(s);
        assert(zero_bytes(0) + s =~= s);
    } else {
        let t = s.drop_first();
        lemma_be_value_drop_leading_zero(s);
        lemma_strip_leading_zeros(t);
        let b = be_bytes(be_value(t));
        let m = (t.len() - b.len()) as nat;
        assert(s =~= seq![0u8] + t);
        assert(zero_bytes((m + 1) as nat) =~= seq![0u8] + zero_bytes(m));
        assert(s =~= zero_bytes((m + 1) as nat) + b);
    }
}

/// The shortest encoding of `n` fits in `k` bytes exactly when `n < 256^k`.
pub proof fn lemma_be_bytes_len(n: nat, k: nat)
    requires
        k >= 1,
    ensures
        be_bytes(n).len() <= k <==> n < pow256(k),
    decreases n,
{
    if n < 256 {
        assert(pow256(k) >= 256) by {
            lemma_pow256_at_least(k);
        }
    } else {
        assert(be_bytes(n).len() == be_bytes(n / 256).len() + 1);
        if k == 1 {
            assert(pow256(1) == 256 * pow256(0));
        } else {
            lemma_be_bytes_len(n / 256, (k - 1) as nat);
            assert(pow256(k) == 256 * pow256((k - 1) as nat));
            assert(n == (n / 256) * 256 + n % 256);
            assert(n / 256 < pow256((k - 1) as nat) <==> n < pow256(k)) by (nonlinear_arith)
                requires
                    n == (n / 256) * 256 + n % 256,
                    0 <= n % 256 < 256,
                    pow256(k) == 256 * pow256((k - 1) as nat),
            ;
        }
    }
}

/// `256^k` is at least 256 for `k >= 1`.
pub proof fn lemma_pow256_at_least(k: nat)
    requires
        k >= 1,
    ensures
        pow256(k) >= 256,
    decreases k,
{
    if k > 1 {
        lemma_pow256_at_least((k - 1) as nat);
    }
    assert(pow256(k) == 256 * pow256((k - 1) as nat));
    if k == 1 {
        assert(pow256(0) == 1);
    }
}

} // verus!

verus! {

/// The nibble that a lowercase hexadecimal digit stands for.
pub open spec fn hex_char_value(c: char) -> nat {
    if '0' <= c && c <= '9' {
        (c as int - 48) as nat
    } else {
        (c as int - 87) as nat
    }
}

/// Reads lowercase hexadecimal text back into bytes, two characters per byte,
/// high nibble first.
pub open spec fn hex_text_bytes(s: Seq<char>) -> Seq<u8>
    decreases s.len(),
{
    if s.len() < 2 {
        Seq::empty()
    } else {
        hex_text_bytes(s.subrange(0, s.len() - 2)).push(
            (16 * hex_char_value(s[s.len() - 2]) + hex_char_value(s[s.len() - 1])) as u8,
        )
    }
}

} // verus!
