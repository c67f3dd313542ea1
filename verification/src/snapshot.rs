//! `SnapshotHash`: a 256-bit hash value tagged with the scheme that produced
//! it, kept as decimal text and as big-endian bytes, with its prefixed text
//! form ("v1:DECIMAL" / "v2:DECIMAL") and the parser that reads it back.

use crate::bignum::{
    biguint_from_be_bytes, biguint_to_be_bytes, biguint_to_decimal, biguint_value, parse_biguint,
};
use crate::digest::{blake3_digest, blake3_hash, hex_encode};
use crate::numeric::{
    be_bytes_32, be_value, decimal_digits, decimal_literal_body, decimal_literal_value,
    is_decimal_literal, lemma_be_value_of_be_bytes_32, lower_hex, zero_bytes,
};
use num_bigint::BigUint;
use vstd::prelude::*;

verus! {

/// Which hash function produced a `SnapshotHash`.
///
/// `LegacyToml` (v1) hashes canonical-TOML bytes; `Canonical` (v2) hashes the
/// structural JSON form. The same configuration gives different values under
/// the two schemes, so the scheme is part of a hash's identity.
#[derive(Clone, Copy, Debug, PartialEq, Eq, Hash, Structural)]
pub enum SnapshotHashScheme {
    /// Blake3 over canonical-TOML bytes. Prefix `v1`.
    LegacyToml,
    /// Structural blake3 over the canonical JSON value. Prefix `v2`.
    Canonical,
}

impl SnapshotHashScheme {
    /// The prefix that names the scheme in the text form of a hash.
    pub open spec fn prefix_text(self) -> Seq<char> {
        match self {
            SnapshotHashScheme::LegacyToml => seq!['v', '1'],
            SnapshotHashScheme::Canonical => seq!['v', '2'],
        }
    }

    /// Stable string prefix used in the display, parse and wire forms.
    pub fn prefix(self) -> (p: &'static str)
        ensures
            p@ == self.prefix_text(),
    {
        match self {
            SnapshotHashScheme::LegacyToml => {
                proof {
                    reveal_strlit("v1");
                }
                "v1"
            },
            SnapshotHashScheme::Canonical => {
                proof {
                    reveal_strlit("v2");
                }
                "v2"
            },
        }
    }
}

/// What a `SnapshotHash` stands for: its scheme and the number it holds.
pub struct SnapshotHashView {
    pub scheme: SnapshotHashScheme,
    pub value: nat,
}

/// A snapshot hash, kept both as decimal text (for ClickHouse) and as
/// big-endian bytes (for Postgres `BYTEA`), tagged with its scheme.
#[derive(Debug, PartialEq, Eq, Hash)]
pub struct SnapshotHash {
    scheme: SnapshotHashScheme,
    decimal_str: String,
    bytes: Vec<u8>,
}

impl View for SnapshotHash {
    type V = SnapshotHashView;

    closed spec fn view(&self) -> SnapshotHashView {
        SnapshotHashView { scheme: self.scheme, value: be_value(self.bytes@) }
    }
}

/// The text form of a hash: its scheme's prefix, ':', and its decimal value.
pub open spec fn display_text(v: SnapshotHashView) -> Seq<char> {
    v.scheme.prefix_text() + seq![':'] + decimal_digits(v.value)
}

/// The error of reading a hash from text: nothing to read, or a character that
/// is no decimal digit.
#[derive(Clone, Copy, Debug, PartialEq, Eq, Structural)]
pub enum SnapshotHashParseError {
    Empty,
    InvalidDigit,
}

/// How a text names its scheme: "v1:" and "v2:" name one; text without either
/// prefix is the legacy unprefixed decimal form.
pub open spec fn scheme_and_digits(s: Seq<char>) -> (SnapshotHashScheme, Seq<char>) {
    if s.len() >= 3 && s.take(3) == seq!['v', '1', ':'] {
        (SnapshotHashScheme::LegacyToml, s.skip(3))
    } else if s.len() >= 3 && s.take(3) == seq!['v', '2', ':'] {
        (SnapshotHashScheme::Canonical, s.skip(3))
    } else {
        (SnapshotHashScheme::LegacyToml, s)
    }
}

/// What reading `s` as a hash gives.
pub open spec fn parse_result(s: Seq<char>) -> Result<SnapshotHashView, SnapshotHashParseError> {
    let (scheme, digits) = scheme_and_digits(s);
    if is_decimal_literal(digits) {
        Ok(SnapshotHashView { scheme, value: decimal_literal_value(digits) })
    } else if decimal_literal_body(digits).len() == 0 {
        Err(SnapshotHashParseError::Empty)
    } else {
        Err(SnapshotHashParseError::InvalidDigit)
    }
}

impl SnapshotHashParseError {
    /// The message of the error.
    pub open spec fn message_text(self) -> Seq<char> {
        match self {
            SnapshotHashParseError::Empty => "cannot parse integer from empty string"@,
            SnapshotHashParseError::InvalidDigit => "invalid digit found in string"@,
        }
    }

    /// The message of the error, as `num_bigint` words it.
    pub fn message(&self) -> (m: &'static str)
        ensures
            m@ == self.message_text(),
    {
        match self {
            SnapshotHashParseError::Empty => "cannot parse integer from empty string",
            SnapshotHashParseError::InvalidDigit => "invalid digit found in string",
        }
    }
}

impl SnapshotHash {
    #[verifier::type_invariant]
    spec fn well_formed(self) -> bool {
        &&& self.bytes@ == be_bytes_32(be_value(self.bytes@))
        &&& self.decimal_str@ == decimal_digits(be_value(self.bytes@))
    }

    /// The big-endian bytes of the hash: 32 bytes (256 bits) for a value below
    /// 2^256, the shortest encoding for a larger one.
    pub open spec fn bytes_view(self) -> Seq<u8> {
        be_bytes_32(self@.value)
    }

    /// Creates a hash from big-endian bytes, tagged with `scheme`. The bytes are
    /// read as a number.
    pub fn from_bytes_with_scheme(bytes: &[u8], scheme: SnapshotHashScheme) -> (h: Self)
        ensures
            h@ == (SnapshotHashView { scheme, value: be_value(bytes@) }),
    {
        let big_int = biguint_from_be_bytes(bytes);
        Self::from_biguint_with_scheme(big_int, scheme)
    }

    /// Creates a hash from big-endian bytes, tagged as legacy.
    pub fn from_bytes(bytes: &[u8]) -> (h: Self)
        ensures
            h@ == (SnapshotHashView { scheme: SnapshotHashScheme::LegacyToml, value: be_value(bytes@) }),
    {
        Self::from_bytes_with_scheme(bytes, SnapshotHashScheme::LegacyToml)
    }

    /// Creates a hash from big-endian bytes, tagged as canonical.
    pub fn from_canonical_bytes(bytes: &[u8]) -> (h: Self)
        ensures
            h@ == (SnapshotHashView { scheme: SnapshotHashScheme::Canonical, value: be_value(bytes@) }),
    {
        Self::from_bytes_with_scheme(bytes, SnapshotHashScheme::Canonical)
    }

    /// Creates a hash of the number `big_int` holds, tagged with `scheme`.
    pub fn from_biguint_with_scheme(big_int: BigUint, scheme: SnapshotHashScheme) -> (h: Self)
        ensures
            h@ == (SnapshotHashView { scheme, value: biguint_value(big_int) }),
    {
        let decimal_str = biguint_to_decimal(&big_int);
        let shortest = biguint_to_be_bytes(&big_int);
        let bytes = pad_to_hash_width(shortest);
        proof {
            lemma_be_value_of_be_bytes_32(biguint_value(big_int));
        }
        SnapshotHash { scheme, decimal_str, bytes }
    }

    /// Creates a hash of the number `big_int` holds, tagged as legacy.
    pub fn from_biguint(big_int: BigUint) -> (h: Self)
        ensures
            h@ == (SnapshotHashView {
                scheme: SnapshotHashScheme::LegacyToml,
                value: biguint_value(big_int),
            }),
    {
        Self::from_biguint_with_scheme(big_int, SnapshotHashScheme::LegacyToml)
    }

    /// Creates a hash of the number `big_int` holds, tagged as canonical.
    pub fn from_biguint_canonical(big_int: BigUint) -> (h: Self)
        ensures
            h@ == (SnapshotHashView {
                scheme: SnapshotHashScheme::Canonical,
                value: biguint_value(big_int),
            }),
    {
        Self::from_biguint_with_scheme(big_int, SnapshotHashScheme::Canonical)
    }

    /// The hash's scheme tag.
    pub fn scheme(&self) -> (s: SnapshotHashScheme)
        ensures
            s == self@.scheme,
    {
        self.scheme
    }

    /// The big-endian bytes of the hash, as stored in Postgres `BYTEA`.
    pub fn as_bytes(&self) -> (b: &[u8])
        ensures
            b@ == self.bytes_view(),
    {
        proof {
            use_type_invariant(self);
        }
        self.bytes.as_slice()
    }

    /// The lowercase hex form of the bytes, without the scheme prefix.
    pub fn to_hex_string(&self) -> (s: String)
        ensures
            s@ == lower_hex(self.bytes_view()),
    {
        proof {
            use_type_invariant(self);
        }
        hex_encode(self.bytes.as_slice())
    }

    /// The decimal form without the scheme prefix, for ClickHouse
    /// `toUInt256(...)` literals.
    pub fn to_decimal_string(&self) -> (s: &str)
        ensures
            s@ == decimal_digits(self@.value),
    {
        proof {
            use_type_invariant(self);
        }
        self.decimal_str.as_str()
    }

    /// The self-describing text form, "v1:DECIMAL" or "v2:DECIMAL".
    pub fn to_string(&self) -> (s: String)
        ensures
            s@ == display_text(self@),
    {
        proof {
            use_type_invariant(self);
            reveal_strlit(":");
        }
        let mut s = String::from_str(self.scheme.prefix());
        s.append(":");
        s.append(self.decimal_str.as_str());
        s
    }

    /// Reads a hash from its text form: "v1:DECIMAL" (legacy), "v2:DECIMAL"
    /// (canonical), or a bare DECIMAL, which is legacy.
    pub fn parse(text: &str) -> (res: Result<SnapshotHash, SnapshotHashParseError>)
        ensures
            match res {
                Ok(h) => parse_result(text@) == Ok::<SnapshotHashView, SnapshotHashParseError>(h@),
                Err(e) => parse_result(text@) == Err::<SnapshotHashView, SnapshotHashParseError>(e),
            },
    {
        let (scheme, digits) = split_scheme(text);
        match parse_biguint(digits) {
            Ok(big_int) => Ok(SnapshotHash::from_biguint_with_scheme(big_int, scheme)),
            Err(e) => Err(e),
        }
    }

    /// A deterministic hash for tests: blake3 of the empty input, tagged as
    /// legacy.
    pub fn new_test() -> (h: SnapshotHash)
        ensures
            h@ == (SnapshotHashView {
                scheme: SnapshotHashScheme::LegacyToml,
                value: be_value(blake3_digest(Seq::empty())),
            }),
    {
        let empty: Vec<u8> = Vec::new();
        let digest = blake3_hash(empty.as_slice());
        proof {
            assert(empty@ =~= Seq::<u8>::empty());
        }
        let big_int = biguint_from_be_bytes(digest.as_slice());
        SnapshotHash::from_biguint(big_int)
    }
}

/// Splits the scheme prefix off a hash's text form.
fn split_scheme(text: &str) -> (res: (SnapshotHashScheme, &str))
    ensures
        (res.0, res.1@) == scheme_and_digits(text@),
{
    let n = text.unicode_len();
    if n >= 3 && text.get_char(0) == 'v' && text.get_char(2) == ':' {
        let c = text.get_char(1);
        if c == '1' {
            assert(text@.take(3) =~= seq!['v', '1', ':']);
            return (SnapshotHashScheme::LegacyToml, text.substring_char(3, n));
        }
        if c == '2' {
            assert(text@.take(3) =~= seq!['v', '2', ':']);
            assert(text@.take(3) != seq!['v', '1', ':']) by {
                assert(text@.take(3)[1] != seq!['v', '1', ':'][1]);
            }
            return (SnapshotHashScheme::Canonical, text.substring_char(3, n));
        }
        assert(text@.take(3) != seq!['v', '1', ':']) by {
            assert(text@.take(3)[1] != seq!['v', '1', ':'][1]);
        }
        assert(text@.take(3) != seq!['v', '2', ':']) by {
            assert(text@.take(3)[1] != seq!['v', '2', ':'][1]);
        }
    } else if n >= 3 {
        if text.get_char(0) != 'v' {
            assert(text@.take(3)[0] != seq!['v', '1', ':'][0]);
            assert(text@.take(3)[0] != seq!['v', '2', ':'][0]);
        } else {
            assert(text@.take(3)[2] != seq!['v', '1', ':'][2]);
            assert(text@.take(3)[2] != seq!['v', '2', ':'][2]);
        }
    }
    (SnapshotHashScheme::LegacyToml, text)
}

/// Puts zero bytes in front of a shortest big-endian encoding up to 32 bytes;
/// a longer one stays as it is.
fn pad_to_hash_width(shortest: Vec<u8>) -> (padded: Vec<u8>)
    ensures
        padded@ == (if shortest@.len() < 32 {
            zero_bytes((32 - shortest@.len()) as nat) + shortest@
        } else {
            shortest@
        }),
{
    let n = shortest.len();
    if n >= 32 {
        return shortest;
    }
    let k: usize = 32 - n;
    let mut padded: Vec<u8> = Vec::new();
    let mut i: usize = 0;
    while i < k
        invariant
            i <= k,
            padded@ == zero_bytes(i as nat),
        decreases k - i,
    {
        padded.push(0u8);
        i = i + 1;
        assert(padded@ =~= zero_bytes(i as nat));
    }
    let mut j: usize = 0;
    while j < n
        invariant
            j <= n,
            n == shortest@.len(),
            k == 32 - n,
            padded@ == zero_bytes(k as nat) + shortest@.take(j as int),
        decreases n - j,
    {
        padded.push(shortest[j]);
        j = j + 1;
        assert(padded@ =~= zero_bytes(k as nat) + shortest@.take(j as int));
    }
    assert(shortest@.take(n as int) =~= shortest@);
    padded
}

impl Clone for SnapshotHash {
    fn clone(&self) -> (c: SnapshotHash)
        ensures
            c@ == self@,
    {
        proof {
            use_type_invariant(self);
        }
        SnapshotHash {
            scheme: self.scheme,
            decimal_str: self.decimal_str.clone(),
            bytes: vstd::slice::slice_to_vec(self.bytes.as_slice()),
        }
    }
}

impl std::str::FromStr for SnapshotHash {
    type Err = SnapshotHashParseError;

    fn from_str(s: &str) -> (res: Result<SnapshotHash, SnapshotHashParseError>)
        ensures
            match res {
                Ok(h) => parse_result(s@) == Ok::<SnapshotHashView, SnapshotHashParseError>(h@),
                Err(e) => parse_result(s@) == Err::<SnapshotHashView, SnapshotHashParseError>(e),
            },
    {
        SnapshotHash::parse(s)
    }
}

impl Default for SnapshotHash {
    fn default() -> (h: SnapshotHash)
        ensures
            h@ == (SnapshotHashView {
                scheme: SnapshotHashScheme::LegacyToml,
                value: be_value(blake3_digest(Seq::empty())),
            }),
    {
        SnapshotHash::new_test()
    }
}

} // verus!
