//! Properties of snapshot hashes that span several functions, proved over the
//! models that those functions' contracts use.

use crate::numeric::{
    be_bytes_32, be_value, decimal_digits, decimal_literal_value, hex_char_lower,
    hex_char_value, hex_text_bytes, is_decimal_digit, lemma_be_bytes_len, lemma_be_bytes_of_be_value,
    lemma_be_value_of_be_bytes_32, lemma_decimal_digits_literal, lemma_strip_leading_zeros,
    lower_hex, pow256,
};
use crate::snapshot::{
    display_text, parse_result, scheme_and_digits, SnapshotHashParseError, SnapshotHashScheme,
    SnapshotHashView,
};
use vstd::prelude::*;

verus! {

/// Reading back the text form of any hash gives the same hash, scheme included.
pub proof fn law_display_parse_round_trip(v: SnapshotHashView)
    ensures
        parse_result(display_text(v)) == Ok::<SnapshotHashView, SnapshotHashParseError>(v),
{
    let s = display_text(v);
    let digits = decimal_digits(v.value);
    lemma_decimal_digits_literal(v.value);
    assert(s.take(3) =~= v.scheme.prefix_text() + seq![':']);
    assert(s.skip(3) =~= digits);
    match v.scheme {
        SnapshotHashScheme::LegacyToml => {
            assert(s.take(3) =~= seq!['v', '1', ':']);
        },
        SnapshotHashScheme::Canonical => {
            assert(s.take(3) =~= seq!['v', '2', ':']);
            assert(s.take(3)[1] != seq!['v', '1', ':'][1]);
        },
    }
    assert(scheme_and_digits(s) == (v.scheme, digits));
}

/// The unprefixed decimal form of a number, as stored before prefixes existed,
/// reads as a legacy hash of that number.
pub proof fn law_unprefixed_decimal_is_legacy(n: nat)
    ensures
        parse_result(decimal_digits(n)) == Ok::<SnapshotHashView, SnapshotHashParseError>(
            SnapshotHashView { scheme: SnapshotHashScheme::LegacyToml, value: n },
        ),
{
    let s = decimal_digits(n);
    lemma_decimal_digits_literal(n);
    if s.len() >= 3 {
        assert(s.take(3)[0] == s[0]);
        assert(s.take(3)[0] != seq!['v', '1', ':'][0]);
        assert(s.take(3)[0] != seq!['v', '2', ':'][0]);
    }
    assert(scheme_and_digits(s) == (SnapshotHashScheme::LegacyToml, s));
}

/// The text form of a hash always starts with its scheme's prefix and ':'.
pub proof fn law_display_is_prefixed(v: SnapshotHashView)
    ensures
        display_text(v).take(3) == v.scheme.prefix_text() + seq![':'],
{
    assert(display_text(v).take(3) =~= v.scheme.prefix_text() + seq![':']);
}

/// After its prefix and ':', the text form of a hash is exactly the decimal
/// text of its value: digits only, nothing before or after them.
pub proof fn law_display_is_bare_decimal_after_prefix(v: SnapshotHashView)
    ensures
        display_text(v).skip(3) == decimal_digits(v.value),
        display_text(v).len() == 3 + decimal_digits(v.value).len(),
        forall|i: int| 3 <= i < display_text(v).len() ==> is_decimal_digit(#[trigger] display_text(v)[i]),
{
    let s = display_text(v);
    let digits = decimal_digits(v.value);
    lemma_decimal_digits_literal(v.value);
    crate::numeric::lemma_decimal_digits(v.value);
    assert(s.skip(3) =~= digits);
    assert forall|i: int| 3 <= i < s.len() implies is_decimal_digit(#[trigger] s[i]) by {
        assert(s[i] == digits[i - 3]);
    }
}

/// Two hashes with the same value but different schemes print differently.
pub proof fn law_scheme_distinguishes_display(v: SnapshotHashView, w: SnapshotHashView)
    requires
        v.value == w.value,
        v.scheme != w.scheme,
    ensures
        display_text(v) != display_text(w),
{
    assert(display_text(v)[1] != display_text(w)[1]);
}

/// The bytes of a hash read back as its value, so building a hash from them
/// gives a hash of the same value.
pub proof fn law_bytes_round_trip(v: SnapshotHashView)
    ensures
        be_value(be_bytes_32(v.value)) == v.value,
{
    lemma_be_value_of_be_bytes_32(v.value);
}

/// The bytes of a hash are 32 bytes (256 bits) exactly when its value is below
/// 2^256, and never fewer.
pub proof fn law_bytes_are_256_bits(n: nat)
    ensures
        be_bytes_32(n).len() >= 32,
        be_bytes_32(n).len() == 32 <==> n < pow256(32),
{
    lemma_be_bytes_len(n, 32);
}

/// 32 input bytes come back whole from a hash built of them, leading zero
/// bytes included.
pub proof fn law_32_byte_input_kept(bytes: Seq<u8>)
    requires
        bytes.len() == 32,
    ensures
        be_bytes_32(be_value(bytes)) == bytes,
{
    lemma_strip_leading_zeros(bytes);
}

/// Longer input bytes without a leading zero byte come back unchanged too.
pub proof fn law_long_canonical_input_kept(bytes: Seq<u8>)
    requires
        bytes.len() > 32,
        bytes[0] != 0,
    ensures
        be_bytes_32(be_value(bytes)) == bytes,
{
    lemma_be_bytes_of_be_value(bytes);
}

/// The decimal text and the big-endian bytes of a hash stand for the same
/// number.
pub proof fn law_decimal_and_bytes_agree(v: SnapshotHashView)
    ensures
        decimal_literal_value(decimal_digits(v.value)) == be_value(be_bytes_32(v.value)),
{
    lemma_decimal_digits_literal(v.value);
    lemma_be_value_of_be_bytes_32(v.value);
}

/// Two hashes are the same exactly when their schemes, bytes and decimal texts
/// are the same: the scheme is part of a hash's identity.
pub proof fn law_identity_is_scheme_bytes_and_decimal(v: SnapshotHashView, w: SnapshotHashView)
    ensures
        v == w <==> (v.scheme == w.scheme && be_bytes_32(v.value) == be_bytes_32(w.value)
            && decimal_digits(v.value) == decimal_digits(w.value)),
{
    lemma_be_value_of_be_bytes_32(v.value);
    lemma_be_value_of_be_bytes_32(w.value);
}

/// The hex text of bytes has two characters per byte, each a lowercase
/// hexadecimal digit.
pub proof fn law_hex_two_lowercase_digits_per_byte(bytes: Seq<u8>)
    ensures
        lower_hex(bytes).len() == 2 * bytes.len(),
        forall|i: int|
            0 <= i < lower_hex(bytes).len() ==> {
                let c = #[trigger] lower_hex(bytes)[i];
                ('0' <= c && c <= '9') || ('a' <= c && c <= 'f')
            },
    decreases bytes.len(),
{
    if bytes.len() > 0 {
        let prefix = bytes.drop_last();
        law_hex_two_lowercase_digits_per_byte(prefix);
        let hi = bytes.last() as nat / 16;
        let lo = bytes.last() as nat % 16;
        assert(hex_char_lower(hi) as int == if hi < 10 { hi + 48 } else { hi + 87 });
        assert(hex_char_lower(lo) as int == if lo < 10 { lo + 48 } else { lo + 87 });
        let s = lower_hex(bytes);
        assert forall|i: int| 0 <= i < s.len() implies {
            let c = #[trigger] s[i];
            ('0' <= c && c <= '9') || ('a' <= c && c <= 'f')
        } by {
            if i < s.len() - 2 {
                assert(s[i] == lower_hex(prefix)[i]);
            }
        }
    }
}

/// Hex text of bytes reads back as the same bytes.
pub proof fn law_hex_round_trip(bytes: Seq<u8>)
    ensures
        hex_text_bytes(lower_hex(bytes)) == bytes,
    decreases bytes.len(),
{
    if bytes.len() > 0 {
        let prefix = bytes.drop_last();
        law_hex_round_trip(prefix);
        law_hex_two_lowercase_digits_per_byte(prefix);
        let s = lower_hex(bytes);
        let hi = bytes.last() as nat / 16;
        let lo = bytes.last() as nat % 16;
        assert(hex_char_lower(hi) as int == if hi < 10 { hi + 48 } else { hi + 87 });
        assert(hex_char_lower(lo) as int == if lo < 10 { lo + 48 } else { lo + 87 });
        assert(hex_char_value(hex_char_lower(hi)) == hi);
        assert(hex_char_value(hex_char_lower(lo)) == lo);
        assert(s.subrange(0, s.len() - 2) =~= lower_hex(prefix));
        assert(s[s.len() - 2] == hex_char_lower(hi));
        assert(s[s.len() - 1] == hex_char_lower(lo));
        assert((16 * hi + lo) as u8 == bytes.last());
        assert(hex_text_bytes(s) =~= bytes);
    } else {
        assert(hex_text_bytes(lower_hex(bytes)) =~= bytes);
    }
}

} // verus!
