//! Typed keys of the machine, node and disco key hierarchy.
//!
//! All keys are Curve25519 keys of 32 bytes. A private key cannot be cloned,
//! shows nothing of itself when debugged and is wiped when dropped; a public
//! key can be cloned and compared freely.
//!
//! As text, a key is a prefix that names its type (`mkey:`, `nodekey:`,
//! `discokey:`, `privkey:`) followed by two hexadecimal digits per byte.

use crate::boundary;
use crate::text;
use vstd::prelude::*;
use vstd::utf8::encode_utf8;

verus! {

/// Length of all Curve25519 keys in bytes.
pub const KEY_LEN: usize = 32;

// ---------------------------------------------------------------------------
// Errors
// ---------------------------------------------------------------------------

/// What can be wrong with the text of a key.
#[derive(Debug)]
pub enum KeyError {
    /// The text lacks the expected prefix.
    MissingPrefix {
        /// The expected prefix.
        prefix: String,
        /// The whole text.
        input: String,
    },
    /// What follows the prefix is not hexadecimal.
    InvalidHex {
        /// What is wrong with it.
        message: String,
    },
    /// The digits do not make up a key of the expected length.
    WrongLength {
        /// The expected number of bytes.
        expected: usize,
        /// The number of bytes found.
        actual: usize,
    },
}

/// A [`KeyError`] with its strings as character sequences.
#[verifier::ext_equal]
pub enum KeyErrorView {
    /// The text lacks the expected prefix.
    MissingPrefix { prefix: Seq<char>, input: Seq<char> },
    /// What follows the prefix is not hexadecimal.
    InvalidHex { message: Seq<char> },
    /// The digits do not make up a key of the expected length.
    WrongLength { expected: nat, actual: nat },
}

impl View for KeyError {
    type V = KeyErrorView;

    open spec fn view(&self) -> KeyErrorView {
        match *self {
            KeyError::MissingPrefix { prefix, input } => KeyErrorView::MissingPrefix {
                prefix: prefix@,
                input: input@,
            },
            KeyError::InvalidHex { message } => KeyErrorView::InvalidHex { message: message@ },
            KeyError::WrongLength { expected, actual } => KeyErrorView::WrongLength {
                expected: expected as nat,
                actual: actual as nat,
            },
        }
    }
}

impl KeyErrorView {
    /// The error as a sentence.
    pub open spec fn sentence(self) -> Seq<char> {
        match self {
            KeyErrorView::MissingPrefix { prefix, input } => "key missing prefix '"@ + prefix
                + "': got '"@ + input + "'"@,
            KeyErrorView::InvalidHex { message } => "invalid hex in key: "@ + message,
            KeyErrorView::WrongLength { expected, actual } => "key length wrong: expected "@
                + text::decimal(expected) + ", got "@ + text::decimal(actual),
        }
    }
}

impl KeyError {
    /// The error as a sentence.
    pub fn describe(&self) -> (s: String)
        ensures
            s@ == self@.sentence(),
    {
        match self {
            KeyError::MissingPrefix { prefix, input } => {
                let mut s: String = text::joined("key missing prefix '", prefix.as_str());
                s.append("': got '");
                s.append(input.as_str());
                s.append("'");
                s
            },
            KeyError::InvalidHex { message } => text::joined(
                "invalid hex in key: ",
                message.as_str(),
            ),
            KeyError::WrongLength { expected, actual } => {
                let mut s: String = text::owned("key length wrong: expected ");
                text::push_decimal(&mut s, *expected);
                s.append(", got ");
                text::push_decimal(&mut s, *actual);
                s
            },
        }
    }
}

impl core::fmt::Display for KeyError {
    fn fmt(&self, f: &mut core::fmt::Formatter<'_>) -> (r: core::fmt::Result)
        ensures
            r is Ok ==> boundary::written(*final(f)) == boundary::written(*old(f))
                + self@.sentence(),
    {
        let s: String = self.describe();
        boundary::write_text(f, s.as_str())
    }
}

impl core::error::Error for KeyError {

}

// ---------------------------------------------------------------------------
// Hexadecimal text
// ---------------------------------------------------------------------------

/// The value of an ASCII hexadecimal digit of either case; `None` for any
/// other byte.
pub open spec fn nibble_value(b: u8) -> Option<u8> {
    if 48 <= b <= 57 {
        Some((b - 48) as u8)
    } else if 97 <= b <= 102 {
        Some((b - 97 + 10) as u8)
    } else if 65 <= b <= 70 {
        Some((b - 65 + 10) as u8)
    } else {
        None
    }
}

/// What is said of a byte that is no hexadecimal digit.
pub open spec fn bad_digit_message(b: u8) -> Seq<char> {
    "invalid hex digit: "@.push(b as char)
}

/// The position of the first byte that is no hexadecimal digit, or the length
/// where there is none.
pub open spec fn first_bad_digit(s: Seq<u8>) -> int
    decreases s.len(),
{
    if s.len() == 0 {
        0
    } else if nibble_value(s[0]) is None {
        0
    } else {
        1 + first_bad_digit(s.drop_first())
    }
}

/// The byte that two hexadecimal digits stand for, high digit first.
pub open spec fn byte_of_digits(hi: u8, lo: u8) -> u8 {
    (16 * nibble_value(hi).unwrap() + nibble_value(lo).unwrap()) as u8
}

/// The bytes that hexadecimal text, given as ASCII bytes, stands for: an even
/// number of digits, each pair one byte.
pub open spec fn hex_value(s: Seq<u8>) -> Result<Seq<u8>, KeyErrorView> {
    if s.len() % 2 != 0 {
        Err(KeyErrorView::InvalidHex { message: "odd number of hex digits"@ })
    } else if first_bad_digit(s) < s.len() {
        Err(KeyErrorView::InvalidHex { message: bad_digit_message(s[first_bad_digit(s)]) })
    } else {
        Ok(Seq::new((s.len() / 2) as nat, |i: int| byte_of_digits(s[2 * i], s[2 * i + 1])))
    }
}

/// `first_bad_digit` is the one position with digits before it and, unless it
/// is the end, no digit at it.
pub proof fn lemma_first_bad_digit(s: Seq<u8>)
    ensures
        0 <= first_bad_digit(s) <= s.len(),
        first_bad_digit(s) < s.len() ==> nibble_value(s[first_bad_digit(s)]) is None,
        forall|i: int| 0 <= i < first_bad_digit(s) ==> nibble_value(#[trigger] s[i]) is Some,
    decreases s.len(),
{
    if s.len() > 0 && nibble_value(s[0]) is Some {
        let t = s.drop_first();
        lemma_first_bad_digit(t);
        assert forall|i: int| 0 <= i < first_bad_digit(s) implies nibble_value(
            #[trigger] s[i],
        ) is Some by {
            if i > 0 {
                assert(s[i] == t[i - 1]);
            }
        }
    }
}

/// Write bytes as hexadecimal text, two lower-case digits per byte.
pub fn hex_encode(bytes: &[u8]) -> (s: String)
    ensures
        s@ == text::hex_text(bytes@),
{
    let mut s: String = String::new();
    let mut i: usize = 0;
    assert(s@ =~= text::hex_text(bytes@.take(0)));
    while i < bytes.len()
        invariant
            i <= bytes@.len(),
            s@ == text::hex_text(bytes@.take(i as int)),
        decreases bytes@.len() - i,
    {
        text::push_hex(&mut s, bytes[i]);
        assert(s@ =~= text::hex_text(bytes@.take(i + 1)));
        i = i + 1;
    }
    assert(bytes@.take(i as int) =~= bytes@);
    s
}

/// The value of one hexadecimal digit.
pub fn hex_nibble(b: u8) -> (r: Result<u8, String>)
    ensures
        match r {
            Ok(v) => nibble_value(b) == Some(v),
            Err(message) => nibble_value(b) is None && message@ == bad_digit_message(b),
        },
{
    if 48 <= b && b <= 57 {
        Ok(b - 48)
    } else if 97 <= b && b <= 102 {
        Ok(b - 97 + 10)
    } else if 65 <= b && b <= 70 {
        Ok(b - 65 + 10)
    } else {
        let mut message: String = text::owned("invalid hex digit: ");
        message.push(b as char);
        Err(message)
    }
}

/// Read hexadecimal text, of either case, into bytes.
pub fn hex_decode(s: &str) -> (r: Result<Vec<u8>, KeyError>)
    ensures
        match r {
            Ok(bytes) => hex_value(encode_utf8(s@)) == Ok::<Seq<u8>, KeyErrorView>(bytes@),
            Err(error) => hex_value(encode_utf8(s@)) == Err::<Seq<u8>, KeyErrorView>(error@),
        },
{
    let digits: &[u8] = s.as_bytes();
    proof {
        lemma_first_bad_digit(digits@);
    }
    if digits.len() % 2 != 0 {
        return Err(KeyError::InvalidHex { message: text::owned("odd number of hex digits") });
    }
    let mut bytes: Vec<u8> = Vec::with_capacity(digits.len() / 2);
    let mut i: usize = 0;
    while i < digits.len()
        invariant
            digits@ == encode_utf8(s@),
            digits@.len() % 2 == 0,
            i <= digits@.len(),
            i % 2 == 0,
            bytes@.len() == i / 2,
            0 <= first_bad_digit(digits@) <= digits@.len(),
            first_bad_digit(digits@) < digits@.len() ==> nibble_value(
                digits@[first_bad_digit(digits@)],
            ) is None,
            forall|j: int|
                0 <= j < first_bad_digit(digits@) ==> nibble_value(#[trigger] digits@[j]) is Some,
            forall|j: int| 0 <= j < i ==> nibble_value(#[trigger] digits@[j]) is Some,
            forall|j: int|
                0 <= j < i / 2 ==> #[trigger] bytes@[j] == byte_of_digits(
                    digits@[2 * j],
                    digits@[2 * j + 1],
                ),
        decreases digits@.len() - i,
    {
        let hi: u8 = match hex_nibble(digits[i]) {
            Ok(v) => v,
            Err(message) => {
                return Err(KeyError::InvalidHex { message });
            },
        };
        let lo: u8 = match hex_nibble(digits[i + 1]) {
            Ok(v) => v,
            Err(message) => {
                return Err(KeyError::InvalidHex { message });
            },
        };
        bytes.push(16 * hi + lo);
        i = i + 2;
    }
    assert(first_bad_digit(digits@) == digits@.len());
    assert(bytes@ =~= Seq::new(
        (digits@.len() / 2) as nat,
        |j: int| byte_of_digits(digits@[2 * j], digits@[2 * j + 1]),
    ));
    Ok(bytes)
}

/// Bytes written as hexadecimal text read back as the same bytes.
pub proof fn law_hex_round_trip(bytes: Seq<u8>)
    ensures
        hex_value(encode_utf8(text::hex_text(bytes))) == Ok::<Seq<u8>, KeyErrorView>(bytes),
{
    let chars = text::hex_text(bytes);
    let digits = encode_utf8(chars);
    assert forall|i: int| 0 <= i < chars.len() implies '\0' <= #[trigger] chars[i]
        <= '\u{7f}' by {}
    vstd::utf8::is_ascii_chars_encode_utf8(chars);
    assert forall|i: int| 0 <= i < digits.len() implies nibble_value(#[trigger] digits[i]) == Some(
        if i % 2 == 0 {
            (bytes[i / 2] as int / 16) as u8
        } else {
            (bytes[i / 2] as int % 16) as u8
        },
    ) by {
        assert(chars[i] as u8 == digits[i]);
    }
    lemma_first_bad_digit(digits);
    assert(first_bad_digit(digits) == digits.len());
    assert(Seq::new(
        (digits.len() / 2) as nat,
        |i: int| byte_of_digits(digits[2 * i], digits[2 * i + 1]),
    ) =~= bytes);
}

// ---------------------------------------------------------------------------
// Key text
// ---------------------------------------------------------------------------

/// Show a key to a formatter: as a tuple struct with the name of its type and
/// one text about it.
fn show(f: &mut core::fmt::Formatter<'_>, name: &str, about: &str) -> (r: core::fmt::Result)
    ensures
        r is Ok ==> boundary::written(*final(f)) == boundary::written(*old(f))
            + boundary::tuple_text(boundary::format_spec(*old(f)), name@, seq![about@]),
{
    let mut tuple: core::fmt::DebugTuple<'_, '_> = boundary::debug_tuple(f, name);
    boundary::debug_field(&mut tuple, about);
    assert(boundary::tuple_builder(tuple).fields =~= seq![about@]);
    boundary::debug_finish(tuple)
}

/// The text of a private key.
pub open spec fn private_text(bytes: Seq<u8>) -> Seq<char> {
    "privkey:"@ + text::hex_text(bytes)
}

/// The text of a machine public key.
pub open spec fn machine_public_text(bytes: Seq<u8>) -> Seq<char> {
    "mkey:"@ + text::hex_text(bytes)
}

/// The text of a node public key.
pub open spec fn node_public_text(bytes: Seq<u8>) -> Seq<char> {
    "nodekey:"@ + text::hex_text(bytes)
}

/// The text of a disco public key.
pub open spec fn disco_public_text(bytes: Seq<u8>) -> Seq<char> {
    "discokey:"@ + text::hex_text(bytes)
}

// ---------------------------------------------------------------------------
// Machine keys
// ---------------------------------------------------------------------------

/// Machine identity private key: persisted to disk, never rotates. Used for the
/// Noise handshake with the control server.
pub struct MachinePrivate([u8; KEY_LEN]);

impl View for MachinePrivate {
    type V = Seq<u8>;

    closed spec fn view(&self) -> Seq<u8> {
        self.0@
    }
}

impl core::fmt::Debug for MachinePrivate {
    fn fmt(&self, f: &mut core::fmt::Formatter<'_>) -> (r: core::fmt::Result)
        ensures
            r is Ok ==> boundary::written(*final(f)) == boundary::written(*old(f))
                + boundary::tuple_text(
                boundary::format_spec(*old(f)),
                "MachinePrivate"@,
                seq!["[REDACTED]"@],
            ),
    {
        show(f, "MachinePrivate", "[REDACTED]")
    }
}

impl Drop for MachinePrivate {
    fn drop(&mut self)
        ensures
            forall|i: int| 0 <= i < KEY_LEN ==> final(self)@[i] == 0,
        opens_invariants none
        no_unwind
    {
        boundary::wipe(&mut self.0);
    }
}

impl zeroize::ZeroizeOnDrop for MachinePrivate {

}

impl MachinePrivate {
    /// Generate a new random private key.
    #[must_use]
    pub fn generate() -> (key: Self)
        ensures
            key@.len() == KEY_LEN,
    {
        MachinePrivate(boundary::random_secret())
    }

    /// Create a private key from raw bytes.
    #[must_use]
    pub fn from_bytes(bytes: [u8; KEY_LEN]) -> (key: Self)
        ensures
            key@ == bytes@,
    {
        MachinePrivate(bytes)
    }

    /// Borrow the raw key bytes.
    #[must_use]
    pub fn as_bytes(&self) -> (bytes: &[u8; KEY_LEN])
        ensures
            bytes@ == self@,
    {
        &self.0
    }

    /// Derive the corresponding public key.
    #[must_use]
    pub fn public_key(&self) -> (key: MachinePublic)
        ensures
            key@ == boundary::x25519_public(self@),
    {
        MachinePublic(boundary::x25519_public_key(&self.0))
    }

    /// Serialize to hex with the private-key prefix.
    #[must_use]
    pub fn to_hex(&self) -> (s: String)
        ensures
            s@ == private_text(self@),
            s@.take(8) == "privkey:"@,
            hex_value(encode_utf8(s@.skip(8))) == Ok::<Seq<u8>, KeyErrorView>(self@),
    {
        proof {
            law_key_text_reads_back(self@);
        }
        text::joined("privkey:", hex_encode(&self.0).as_str())
    }
}

/// Machine identity public key, written with the `mkey:` prefix.
#[derive(Clone, PartialEq, Eq, Hash)]
pub struct MachinePublic([u8; KEY_LEN]);

impl View for MachinePublic {
    type V = Seq<u8>;

    closed spec fn view(&self) -> Seq<u8> {
        self.0@
    }
}

impl core::fmt::Debug for MachinePublic {
    fn fmt(&self, f: &mut core::fmt::Formatter<'_>) -> (r: core::fmt::Result)
        ensures
            r is Ok ==> boundary::written(*final(f)) == boundary::written(*old(f))
                + boundary::tuple_text(
                boundary::format_spec(*old(f)),
                "MachinePublic"@,
                seq![machine_public_text(self@)],
            ),
    {
        let s: String = self.to_hex();
        show(f, "MachinePublic", s.as_str())
    }
}

impl MachinePublic {
    /// Create a public key from raw bytes.
    #[must_use]
    pub fn from_bytes(bytes: [u8; KEY_LEN]) -> (key: Self)
        ensures
            key@ == bytes@,
    {
        MachinePublic(bytes)
    }

    /// Borrow the raw key bytes.
    #[must_use]
    pub fn as_bytes(&self) -> (bytes: &[u8; KEY_LEN])
        ensures
            bytes@ == self@,
    {
        &self.0
    }

    /// Serialize to hex with the public-key prefix.
    #[must_use]
    pub fn to_hex(&self) -> (s: String)
        ensures
            s@ == machine_public_text(self@),
            s@.take(5) == "mkey:"@,
            hex_value(encode_utf8(s@.skip(5))) == Ok::<Seq<u8>, KeyErrorView>(self@),
    {
        proof {
            law_key_text_reads_back(self@);
        }
        text::joined("mkey:", hex_encode(&self.0).as_str())
    }
}

// ---------------------------------------------------------------------------
// Node keys
// ---------------------------------------------------------------------------

/// Node identity private key: the `WireGuard` identity, rotated on expiry. Used
/// for tunnels and relays.
pub struct NodePrivate([u8; KEY_LEN]);

impl View for NodePrivate {
    type V = Seq<u8>;

    closed spec fn view(&self) -> Seq<u8> {
        self.0@
    }
}

impl core::fmt::Debug for NodePrivate {
    fn fmt(&self, f: &mut core::fmt::Formatter<'_>) -> (r: core::fmt::Result)
        ensures
            r is Ok ==> boundary::written(*final(f)) == boundary::written(*old(f))
                + boundary::tuple_text(
                boundary::format_spec(*old(f)),
                "NodePrivate"@,
                seq!["[REDACTED]"@],
            ),
    {
        show(f, "NodePrivate", "[REDACTED]")
    }
}

impl Drop for NodePrivate {
    fn drop(&mut self)
        ensures
            forall|i: int| 0 <= i < KEY_LEN ==> final(self)@[i] == 0,
        opens_invariants none
        no_unwind
    {
        boundary::wipe(&mut self.0);
    }
}

impl zeroize::ZeroizeOnDrop for NodePrivate {

}

impl NodePrivate {
    /// Generate a new random private key.
    #[must_use]
    pub fn generate() -> (key: Self)
        ensures
            key@.len() == KEY_LEN,
    {
        NodePrivate(boundary::random_secret())
    }

    /// Create a private key from raw bytes.
    #[must_use]
    pub fn from_bytes(bytes: [u8; KEY_LEN]) -> (key: Self)
        ensures
            key@ == bytes@,
    {
        NodePrivate(bytes)
    }

    /// Borrow the raw key bytes.
    #[must_use]
    pub fn as_bytes(&self) -> (bytes: &[u8; KEY_LEN])
        ensures
            bytes@ == self@,
    {
        &self.0
    }

    /// Derive the corresponding public key.
    #[must_use]
    pub fn public_key(&self) -> (key: NodePublic)
        ensures
            key@ == boundary::x25519_public(self@),
    {
        NodePublic(boundary::x25519_public_key(&self.0))
    }

    /// Serialize to hex with the private-key prefix.
    #[must_use]
    pub fn to_hex(&self) -> (s: String)
        ensures
            s@ == private_text(self@),
            s@.take(8) == "privkey:"@,
            hex_value(encode_utf8(s@.skip(8))) == Ok::<Seq<u8>, KeyErrorView>(self@),
    {
        proof {
            law_key_text_reads_back(self@);
        }
        text::joined("privkey:", hex_encode(&self.0).as_str())
    }
}

/// Node identity public key, written with the `nodekey:` prefix.
#[derive(Clone, PartialEq, Eq, Hash)]
pub struct NodePublic([u8; KEY_LEN]);

impl View for NodePublic {
    type V = Seq<u8>;

    closed spec fn view(&self) -> Seq<u8> {
        self.0@
    }
}

impl core::fmt::Debug for NodePublic {
    fn fmt(&self, f: &mut core::fmt::Formatter<'_>) -> (r: core::fmt::Result)
        ensures
            r is Ok ==> boundary::written(*final(f)) == boundary::written(*old(f))
                + boundary::tuple_text(
                boundary::format_spec(*old(f)),
                "NodePublic"@,
                seq![node_public_text(self@)],
            ),
    {
        let s: String = self.to_hex();
        show(f, "NodePublic", s.as_str())
    }
}

impl NodePublic {
    /// Create a public key from raw bytes.
    #[must_use]
    pub fn from_bytes(bytes: [u8; KEY_LEN]) -> (key: Self)
        ensures
            key@ == bytes@,
    {
        NodePublic(bytes)
    }

    /// Borrow the raw key bytes.
    #[must_use]
    pub fn as_bytes(&self) -> (bytes: &[u8; KEY_LEN])
        ensures
            bytes@ == self@,
    {
        &self.0
    }

    /// Serialize to hex with the public-key prefix.
    #[must_use]
    pub fn to_hex(&self) -> (s: String)
        ensures
            s@ == node_public_text(self@),
            s@.take(8) == "nodekey:"@,
            hex_value(encode_utf8(s@.skip(8))) == Ok::<Seq<u8>, KeyErrorView>(self@),
    {
        proof {
            law_key_text_reads_back(self@);
        }
        text::joined("nodekey:", hex_encode(&self.0).as_str())
    }
}

// ---------------------------------------------------------------------------
// Disco keys
// ---------------------------------------------------------------------------

/// Disco private key: regenerated per process. Used for NAT traversal.
pub struct DiscoPrivate([u8; KEY_LEN]);

impl View for DiscoPrivate {
    type V = Seq<u8>;

    closed spec fn view(&self) -> Seq<u8> {
        self.0@
    }
}

impl core::fmt::Debug for DiscoPrivate {
    fn fmt(&self, f: &mut core::fmt::Formatter<'_>) -> (r: core::fmt::Result)
        ensures
            r is Ok ==> boundary::written(*final(f)) == boundary::written(*old(f))
                + boundary::tuple_text(
                boundary::format_spec(*old(f)),
                "DiscoPrivate"@,
                seq!["[REDACTED]"@],
            ),
    {
        show(f, "DiscoPrivate", "[REDACTED]")
    }
}

impl Drop for DiscoPrivate {
    fn drop(&mut self)
        ensures
            forall|i: int| 0 <= i < KEY_LEN ==> final(self)@[i] == 0,
        opens_invariants none
        no_unwind
    {
        boundary::wipe(&mut self.0);
    }
}

impl zeroize::ZeroizeOnDrop for DiscoPrivate {

}

impl DiscoPrivate {
    /// Generate a new random private key.
    #[must_use]
    pub fn generate() -> (key: Self)
        ensures
            key@.len() == KEY_LEN,
    {
        DiscoPrivate(boundary::random_secret())
    }

    /// Create a private key from raw bytes.
    #[must_use]
    pub fn from_bytes(bytes: [u8; KEY_LEN]) -> (key: Self)
        ensures
            key@ == bytes@,
    {
        DiscoPrivate(bytes)
    }

    /// Borrow the raw key bytes.
    #[must_use]
    pub fn as_bytes(&self) -> (bytes: &[u8; KEY_LEN])
        ensures
            bytes@ == self@,
    {
        &self.0
    }

    /// Derive the corresponding public key.
    #[must_use]
    pub fn public_key(&self) -> (key: DiscoPublic)
        ensures
            key@ == boundary::x25519_public(self@),
    {
        DiscoPublic(boundary::x25519_public_key(&self.0))
    }

    /// Serialize to hex with the private-key prefix.
    #[must_use]
    pub fn to_hex(&self) -> (s: String)
        ensures
            s@ == private_text(self@),
            s@.take(8) == "privkey:"@,
            hex_value(encode_utf8(s@.skip(8))) == Ok::<Seq<u8>, KeyErrorView>(self@),
    {
        proof {
            law_key_text_reads_back(self@);
        }
        text::joined("privkey:", hex_encode(&self.0).as_str())
    }
}

/// Disco public key, written with the `discokey:` prefix.
#[derive(Clone, PartialEq, Eq, Hash)]
pub struct DiscoPublic([u8; KEY_LEN]);

impl View for DiscoPublic {
    type V = Seq<u8>;

    closed spec fn view(&self) -> Seq<u8> {
        self.0@
    }
}

impl core::fmt::Debug for DiscoPublic {
    fn fmt(&self, f: &mut core::fmt::Formatter<'_>) -> (r: core::fmt::Result)
        ensures
            r is Ok ==> boundary::written(*final(f)) == boundary::written(*old(f))
                + boundary::tuple_text(
                boundary::format_spec(*old(f)),
                "DiscoPublic"@,
                seq![disco_public_text(self@)],
            ),
    {
        let s: String = self.to_hex();
        show(f, "DiscoPublic", s.as_str())
    }
}

impl DiscoPublic {
    /// Create a public key from raw bytes.
    #[must_use]
    pub fn from_bytes(bytes: [u8; KEY_LEN]) -> (key: Self)
        ensures
            key@ == bytes@,
    {
        DiscoPublic(bytes)
    }

    /// Borrow the raw key bytes.
    #[must_use]
    pub fn as_bytes(&self) -> (bytes: &[u8; KEY_LEN])
        ensures
            bytes@ == self@,
    {
        &self.0
    }

    /// Serialize to hex with the public-key prefix.
    #[must_use]
    pub fn to_hex(&self) -> (s: String)
        ensures
            s@ == disco_public_text(self@),
            s@.take(9) == "discokey:"@,
            hex_value(encode_utf8(s@.skip(9))) == Ok::<Seq<u8>, KeyErrorView>(self@),
    {
        proof {
            law_key_text_reads_back(self@);
        }
        text::joined("discokey:", hex_encode(&self.0).as_str())
    }
}

// ---------------------------------------------------------------------------
// Reading a machine public key
// ---------------------------------------------------------------------------

/// The key bytes that the text of a machine public key stands for: the prefix
/// and then 32 bytes as hexadecimal text.
pub open spec fn machine_public_value(s: Seq<char>) -> Result<Seq<u8>, KeyErrorView> {
    if !("mkey:"@.is_prefix_of(s)) {
        Err(KeyErrorView::MissingPrefix { prefix: "mkey:"@, input: s })
    } else {
        match hex_value(encode_utf8(s.skip("mkey:"@.len() as int))) {
            Err(error) => Err(error),
            Ok(bytes) => if bytes.len() != KEY_LEN {
                Err(KeyErrorView::WrongLength { expected: KEY_LEN as nat, actual: bytes.len() })
            } else {
                Ok(bytes)
            },
        }
    }
}

impl MachinePublic {
    /// Parse a machine public key from its text, `mkey:` and 64 hexadecimal
    /// digits.
    ///
    /// # Errors
    ///
    /// Returns [`KeyError`] if the prefix is missing, the hex is invalid, or
    /// the decoded length is not 32 bytes.
    pub fn from_hex(s: &str) -> (r: Result<Self, KeyError>)
        ensures
            match r {
                Ok(key) => machine_public_value(s@) == Ok::<Seq<u8>, KeyErrorView>(key@),
                Err(error) => machine_public_value(s@) == Err::<Seq<u8>, KeyErrorView>(error@),
            },
            r matches Ok(key) ==> s@.take(5) == "mkey:"@ && key@.len() == 32 && hex_value(
                encode_utf8(s@.skip(5)),
            ) == Ok::<Seq<u8>, KeyErrorView>(key@),
    {
        proof {
            law_machine_public_reading(s@);
        }
        let prefix: &str = "mkey:";
        let chars: Vec<char> = text::chars_of(s);
        let expected: Vec<char> = text::chars_of(prefix);
        if !text::matches_at(&chars, 0, &expected) {
            return Err(
                KeyError::MissingPrefix { prefix: text::owned(prefix), input: text::owned(s) },
            );
        }
        let hex: String = text::text_between(&chars, expected.len(), chars.len());
        assert("mkey:"@.is_prefix_of(s@));
        assert(hex@ =~= s@.skip("mkey:"@.len() as int));
        let bytes: Vec<u8> = match hex_decode(hex.as_str()) {
            Ok(bytes) => bytes,
            Err(error) => {
                return Err(error);
            },
        };
        if bytes.len() != KEY_LEN {
            return Err(KeyError::WrongLength { expected: KEY_LEN, actual: bytes.len() });
        }
        let mut arr: [u8; KEY_LEN] = [0u8; KEY_LEN];
        let mut i: usize = 0;
        while i < KEY_LEN
            invariant
                i <= KEY_LEN,
                bytes@.len() == KEY_LEN,
                forall|j: int| 0 <= j < i ==> arr@[j] == bytes@[j],
            decreases KEY_LEN - i,
        {
            arr[i] = bytes[i];
            i = i + 1;
        }
        assert(arr@ =~= bytes@);
        Ok(MachinePublic(arr))
    }
}

// ---------------------------------------------------------------------------
// Laws
// ---------------------------------------------------------------------------

/// A machine public key written as text reads back as the same key.
pub proof fn law_machine_public_round_trip(bytes: Seq<u8>)
    requires
        bytes.len() == KEY_LEN,
    ensures
        machine_public_value(machine_public_text(bytes)) == Ok::<Seq<u8>, KeyErrorView>(bytes),
{
    let s = machine_public_text(bytes);
    assert("mkey:"@.is_prefix_of(s));
    assert(s.skip("mkey:"@.len() as int) =~= text::hex_text(bytes));
    law_hex_round_trip(bytes);
}

/// Two keys with the same text are the same key, for each type of key.
pub proof fn law_key_text_is_faithful(a: Seq<u8>, b: Seq<u8>)
    requires
        a.len() == KEY_LEN,
        b.len() == KEY_LEN,
    ensures
        private_text(a) == private_text(b) ==> a == b,
        machine_public_text(a) == machine_public_text(b) ==> a == b,
        node_public_text(a) == node_public_text(b) ==> a == b,
        disco_public_text(a) == disco_public_text(b) ==> a == b,
{
    let ha = text::hex_text(a);
    let hb = text::hex_text(b);
    law_hex_round_trip(a);
    law_hex_round_trip(b);
    assert(ha == hb ==> a == b);
    assert forall|p: Seq<char>| p + ha == #[trigger] (p + hb) implies ha == hb by {
        assert(ha =~= (p + ha).skip(p.len() as int));
        assert(hb =~= (p + hb).skip(p.len() as int));
    }
}

/// Key text starts with the prefix of its type and goes on with 64 digits.
pub proof fn law_key_text_shape(bytes: Seq<u8>)
    requires
        bytes.len() == KEY_LEN,
    ensures
        "privkey:"@.is_prefix_of(private_text(bytes)),
        private_text(bytes).len() == "privkey:"@.len() + 64,
        "mkey:"@.is_prefix_of(machine_public_text(bytes)),
        machine_public_text(bytes).len() == "mkey:"@.len() + 64,
        "nodekey:"@.is_prefix_of(node_public_text(bytes)),
        node_public_text(bytes).len() == "nodekey:"@.len() + 64,
        "discokey:"@.is_prefix_of(disco_public_text(bytes)),
        disco_public_text(bytes).len() == "discokey:"@.len() + 64,
{
}

/// A hexadecimal digit of either case stands for its place among the sixteen;
/// no other byte is one.
pub proof fn law_hex_nibble(b: u8, d: int)
    requires
        0 <= d < 16,
    ensures
        nibble_value("0123456789abcdef"@[d] as u8) == Some(d as u8),
        nibble_value("0123456789ABCDEF"@[d] as u8) == Some(d as u8),
        nibble_value(b) matches Some(v) ==> v < 16 && ("0123456789abcdef"@[v as int] as u8 == b
            || "0123456789ABCDEF"@[v as int] as u8 == b),
{
    reveal_strlit("0123456789abcdef");
    reveal_strlit("0123456789ABCDEF");
    assert(d == 0 || d == 1 || d == 2 || d == 3 || d == 4 || d == 5 || d == 6 || d == 7 || d == 8
        || d == 9 || d == 10 || d == 11 || d == 12 || d == 13 || d == 14 || d == 15);
    if nibble_value(b) is Some {
        let v = nibble_value(b).unwrap() as int;
        assert(v == 0 || v == 1 || v == 2 || v == 3 || v == 4 || v == 5 || v == 6 || v == 7 || v
            == 8 || v == 9 || v == 10 || v == 11 || v == 12 || v == 13 || v == 14 || v == 15);
    }
}

/// Hexadecimal text is read as bytes exactly where it is an even number of
/// digits; each byte then has its high half from one digit and its low half
/// from the next.
pub proof fn law_hex_value(s: Seq<u8>)
    ensures
        hex_value(s) is Ok <==> s.len() % 2 == 0 && (forall|i: int|
            0 <= i < s.len() ==> nibble_value(#[trigger] s[i]) is Some),
        hex_value(s) matches Ok(bytes) ==> s.len() == 2 * bytes.len() && (forall|i: int|
            #![trigger bytes[i]]
            0 <= i < bytes.len() ==> nibble_value(s[2 * i]) == Some((bytes[i] / 16) as u8)
                && nibble_value(s[2 * i + 1]) == Some((bytes[i] % 16) as u8)),
{
    lemma_first_bad_digit(s);
    if hex_value(s) is Ok {
        let bytes = hex_value(s)->Ok_0;
        assert forall|i: int|
            #![trigger bytes[i]]
            0 <= i < bytes.len() implies nibble_value(s[2 * i]) == Some((bytes[i] / 16) as u8)
            && nibble_value(s[2 * i + 1]) == Some((bytes[i] % 16) as u8) by {
            assert(nibble_value(s[2 * i]) is Some && nibble_value(s[2 * i + 1]) is Some);
            assert(bytes[i] == byte_of_digits(s[2 * i], s[2 * i + 1]));
        }
    }
}

/// Text that is not hexadecimal is refused for its odd number of digits, or
/// else for the first byte that is no digit, which is named.
pub proof fn law_hex_refusals(s: Seq<u8>, bad: int)
    requires
        0 <= bad < s.len(),
        nibble_value(s[bad]) is None,
        forall|i: int| 0 <= i < bad ==> nibble_value(#[trigger] s[i]) is Some,
    ensures
        hex_value(s) == Err::<Seq<u8>, KeyErrorView>(
            KeyErrorView::InvalidHex {
                message: if s.len() % 2 == 1 {
                    "odd number of hex digits"@
                } else {
                    "invalid hex digit: "@ + seq![s[bad] as char]
                },
            },
        ),
{
    lemma_first_bad_digit(s);
    let k = first_bad_digit(s);
    if k < bad {
        assert(nibble_value(s[k]) is Some);
    }
    assert(k == bad);
    assert("invalid hex digit: "@.push(s[bad] as char) =~= "invalid hex digit: "@ + seq![
        s[bad] as char,
    ]);
}

/// The text of every type of key is its prefix and then hexadecimal text that
/// reads back as exactly the key's bytes.
pub proof fn law_key_text_reads_back(bytes: Seq<u8>)
    ensures
        private_text(bytes).take(8) == "privkey:"@,
        hex_value(encode_utf8(private_text(bytes).skip(8))) == Ok::<Seq<u8>, KeyErrorView>(bytes),
        machine_public_text(bytes).take(5) == "mkey:"@,
        hex_value(encode_utf8(machine_public_text(bytes).skip(5))) == Ok::<Seq<u8>, KeyErrorView>(
            bytes,
        ),
        node_public_text(bytes).take(8) == "nodekey:"@,
        hex_value(encode_utf8(node_public_text(bytes).skip(8))) == Ok::<Seq<u8>, KeyErrorView>(
            bytes,
        ),
        disco_public_text(bytes).take(9) == "discokey:"@,
        hex_value(encode_utf8(disco_public_text(bytes).skip(9))) == Ok::<Seq<u8>, KeyErrorView>(
            bytes,
        ),
{
    reveal_strlit("privkey:");
    reveal_strlit("mkey:");
    reveal_strlit("nodekey:");
    reveal_strlit("discokey:");
    law_hex_round_trip(bytes);
    assert(private_text(bytes).take(8) =~= "privkey:"@);
    assert(machine_public_text(bytes).take(5) =~= "mkey:"@);
    assert(node_public_text(bytes).take(8) =~= "nodekey:"@);
    assert(disco_public_text(bytes).take(9) =~= "discokey:"@);
    assert(private_text(bytes).skip(8) =~= text::hex_text(bytes));
    assert(machine_public_text(bytes).skip(5) =~= text::hex_text(bytes));
    assert(node_public_text(bytes).skip(8) =~= text::hex_text(bytes));
    assert(disco_public_text(bytes).skip(9) =~= text::hex_text(bytes));
}

/// The digit in every place of a key's text, for each type of key.
pub proof fn law_key_text_digits(bytes: Seq<u8>, i: int)
    requires
        0 <= i < bytes.len(),
    ensures
        ({
            let high = "0123456789abcdef"@[bytes[i] as int / 16];
            let low = "0123456789abcdef"@[bytes[i] as int % 16];
            &&& private_text(bytes)[8 + 2 * i] == high && private_text(bytes)[9 + 2 * i] == low
            &&& machine_public_text(bytes)[5 + 2 * i] == high
            &&& machine_public_text(bytes)[6 + 2 * i] == low
            &&& node_public_text(bytes)[8 + 2 * i] == high
            &&& node_public_text(bytes)[9 + 2 * i] == low
            &&& disco_public_text(bytes)[9 + 2 * i] == high
            &&& disco_public_text(bytes)[10 + 2 * i] == low
        }),
{
    reveal_strlit("privkey:");
    reveal_strlit("mkey:");
    reveal_strlit("nodekey:");
    reveal_strlit("discokey:");
    text::law_hex_digits(bytes, i);
}

/// A machine public key is read from its prefix and 32 bytes of hexadecimal
/// text and from nothing else, and every refusal says what was wrong.
pub proof fn law_machine_public_reading(s: Seq<char>)
    ensures
        ({
            let prefixed = s.len() >= 5 && s.take(5) == "mkey:"@;
            let digits = hex_value(encode_utf8(s.skip(5)));
            machine_public_value(s) == if !prefixed {
                Err::<Seq<u8>, KeyErrorView>(
                    KeyErrorView::MissingPrefix { prefix: "mkey:"@, input: s },
                )
            } else if digits is Ok && digits->Ok_0.len() != 32 {
                Err::<Seq<u8>, KeyErrorView>(
                    KeyErrorView::WrongLength { expected: 32, actual: digits->Ok_0.len() },
                )
            } else {
                digits
            }
        }),
{
    reveal_strlit("mkey:");
    if s.len() >= 5 {
        if s.take(5) == "mkey:"@ {
            assert("mkey:"@.is_prefix_of(s));
        } else if "mkey:"@.is_prefix_of(s) {
            assert(s.take(5) =~= "mkey:"@);
        }
    }
}

/// What an error says of a key holds everything that the error holds.
pub proof fn law_key_error_sentences(error: KeyError)
    ensures
        match error {
            KeyError::MissingPrefix { prefix, input } => error@.sentence()
                == "key missing prefix '"@ + prefix@ + "': got '"@ + input@ + "'"@,
            KeyError::InvalidHex { message } => error@.sentence() == "invalid hex in key: "@
                + message@,
            KeyError::WrongLength { expected, actual } => error@.sentence()
                == "key length wrong: expected "@ + text::decimal(expected as nat) + ", got "@
                + text::decimal(actual as nat),
        },
{
}

} // verus!
