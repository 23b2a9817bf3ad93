//! Base64 text.
//!
//! Every three bytes become four characters, each standing for six bits. Where
//! one or two bytes are left at the end, the bits that are missing are zero,
//! and the characters that would hold none of the bytes are `=`.

use vstd::prelude::*;

verus! {

/// The character that stands for six bits.
pub open spec fn base64_char(bits: int) -> char {
    if bits < 26 {
        (65 + bits) as char
    } else if bits < 52 {
        (97 + bits - 26) as char
    } else if bits < 62 {
        (48 + bits - 52) as char
    } else if bits == 62 {
        '+'
    } else {
        '/'
    }
}

/// The byte at position `i`, or zero behind the end.
pub open spec fn byte_or_zero(bytes: Seq<u8>, i: int) -> int {
    if i < bytes.len() {
        bytes[i] as int
    } else {
        0
    }
}

/// The six bits in place `i` of base64 text.
pub open spec fn six_bits(bytes: Seq<u8>, i: int) -> int {
    let first = byte_or_zero(bytes, i / 4 * 3);
    let second = byte_or_zero(bytes, i / 4 * 3 + 1);
    let third = byte_or_zero(bytes, i / 4 * 3 + 2);
    if i % 4 == 0 {
        first / 4
    } else if i % 4 == 1 {
        first % 4 * 16 + second / 16
    } else if i % 4 == 2 {
        second % 16 * 4 + third / 64
    } else {
        third % 64
    }
}

/// Whether place `i` of base64 text holds none of the bytes.
pub open spec fn is_padding(bytes: Seq<u8>, i: int) -> bool {
    i % 4 >= 2 && i / 4 * 3 + i % 4 - 1 >= bytes.len()
}

/// The length of the base64 text of some number of bytes: four characters for
/// every three bytes or part of three.
pub open spec fn base64_len(bytes: int) -> int {
    (bytes + 2) / 3 * 4
}

/// The standard, padded base64 text of some bytes.
pub open spec fn base64_text(bytes: Seq<u8>) -> Seq<char> {
    Seq::new(
        base64_len(bytes.len() as int) as nat,
        |i: int|
            if is_padding(bytes, i) {
                '='
            } else {
                base64_char(six_bits(bytes, i))
            },
    )
}

/// The characters that base64 text is made of.
pub open spec fn is_base64_char(c: char) -> bool {
    'A' <= c <= 'Z' || 'a' <= c <= 'z' || '0' <= c <= '9' || c == '+' || c == '/' || c == '='
}

// ---------------------------------------------------------------------------
// Laws
// ---------------------------------------------------------------------------

proof fn lemma_six_bits(bytes: Seq<u8>, i: int)
    ensures
        0 <= six_bits(bytes, i) < 64,
{
}

proof fn lemma_base64_char(bits: int, other: int)
    requires
        0 <= bits < 64,
        0 <= other < 64,
    ensures
        is_base64_char(base64_char(bits)),
        base64_char(bits) != '=',
        base64_char(bits) == base64_char(other) ==> bits == other,
{
}

/// Base64 text has four characters for every three bytes or part of three, all
/// of them base64 characters.
pub proof fn law_base64_shape(bytes: Seq<u8>)
    ensures
        base64_text(bytes).len() == base64_len(bytes.len() as int),
        forall|i: int|
            0 <= i < base64_text(bytes).len() ==> is_base64_char(#[trigger] base64_text(bytes)[i]),
{
    assert forall|i: int| 0 <= i < base64_text(bytes).len() implies is_base64_char(
        #[trigger] base64_text(bytes)[i],
    ) by {
        lemma_six_bits(bytes, i);
        lemma_base64_char(six_bits(bytes, i), 0);
    }
}

/// Bytes with the same base64 text have the same bits in every place that holds
/// some, and the same padding.
proof fn lemma_same_place(a: Seq<u8>, b: Seq<u8>, i: int)
    requires
        base64_text(a) == base64_text(b),
        0 <= i < base64_text(a).len(),
    ensures
        is_padding(a, i) == is_padding(b, i),
        !is_padding(a, i) ==> six_bits(a, i) == six_bits(b, i),
{
    lemma_six_bits(a, i);
    lemma_six_bits(b, i);
    lemma_base64_char(six_bits(a, i), six_bits(b, i));
    lemma_base64_char(six_bits(b, i), six_bits(a, i));
    assert(base64_text(a)[i] == if is_padding(a, i) {
        '='
    } else {
        base64_char(six_bits(a, i))
    });
    assert(base64_text(b)[i] == if is_padding(b, i) {
        '='
    } else {
        base64_char(six_bits(b, i))
    });
}

/// Bytes with the same base64 text are the same bytes.
pub proof fn law_base64_is_faithful(a: Seq<u8>, b: Seq<u8>)
    requires
        base64_text(a) == base64_text(b),
    ensures
        a == b,
{
    let n = a.len() as int;
    let m = b.len() as int;
    let groups = (n + 2) / 3;
    assert(base64_text(a).len() == base64_len(n) && base64_text(b).len() == base64_len(m));
    assert((m + 2) / 3 == groups);
    if groups > 0 {
        // Both end in the same group, whose padding tells their lengths.
        let k = 4 * groups - 1;
        assert(k / 4 == groups - 1 && k % 4 == 3);
        assert((k - 1) / 4 == groups - 1 && (k - 1) % 4 == 2);
        lemma_same_place(a, b, k);
        lemma_same_place(a, b, k - 1);
    }
    assert(n == m);
    assert forall|j: int| 0 <= j < n implies a[j] == b[j] by {
        let i = j / 3 * 4;
        assert(i / 4 == j / 3 && (i + 1) / 4 == j / 3 && (i + 2) / 4 == j / 3 && (i + 3) / 4 == j
            / 3);
        assert(i % 4 == 0 && (i + 1) % 4 == 1 && (i + 2) % 4 == 2 && (i + 3) % 4 == 3);
        if j % 3 == 0 {
            lemma_same_place(a, b, i);
            lemma_same_place(a, b, i + 1);
        } else if j % 3 == 1 {
            lemma_same_place(a, b, i + 1);
            lemma_same_place(a, b, i + 2);
        } else {
            lemma_same_place(a, b, i + 2);
            lemma_same_place(a, b, i + 3);
        }
    }
    assert(a =~= b);
}

/// The 64 characters of base64 text, in order.
pub open spec fn base64_alphabet() -> Seq<char> {
    "ABCDEFGHIJKLMNOPQRSTUVWXYZabcdefghijklmnopqrstuvwxyz0123456789+/"@
}

proof fn lemma_base64_alphabet(bits: int)
    requires
        0 <= bits < 64,
    ensures
        base64_char(bits) == base64_alphabet()[bits],
{
    reveal_strlit("ABCDEFGHIJKLMNOPQRSTUVWXYZabcdefghijklmnopqrstuvwxyz0123456789+/");
    assert(bits == 0 || bits == 1 || bits == 2 || bits == 3 || bits == 4 || bits == 5
        || bits == 6 || bits == 7 || bits == 8 || bits == 9 || bits == 10 || bits == 11
        || bits == 12 || bits == 13 || bits == 14 || bits == 15 || bits == 16 || bits == 17
        || bits == 18 || bits == 19 || bits == 20 || bits == 21 || bits == 22 || bits == 23
        || bits == 24 || bits == 25 || bits == 26 || bits == 27 || bits == 28 || bits == 29
        || bits == 30 || bits == 31 || bits == 32 || bits == 33 || bits == 34 || bits == 35
        || bits == 36 || bits == 37 || bits == 38 || bits == 39 || bits == 40 || bits == 41
        || bits == 42 || bits == 43 || bits == 44 || bits == 45 || bits == 46 || bits == 47
        || bits == 48 || bits == 49 || bits == 50 || bits == 51 || bits == 52 || bits == 53
        || bits == 54 || bits == 55 || bits == 56 || bits == 57 || bits == 58 || bits == 59
        || bits == 60 || bits == 61 || bits == 62 || bits == 63);
}

/// Three bytes become four characters of the alphabet, six bits each, the
/// highest first.
pub proof fn law_base64_group(bytes: Seq<u8>, g: int)
    requires
        0 <= g,
        3 * g + 3 <= bytes.len(),
    ensures
        ({
            let letters = "ABCDEFGHIJKLMNOPQRSTUVWXYZabcdefghijklmnopqrstuvwxyz0123456789+/"@;
            let bits = 65536 * bytes[3 * g] + 256 * bytes[3 * g + 1] + bytes[3 * g + 2];
            let four = base64_text(bytes).subrange(4 * g, 4 * g + 4);
            four == seq![
                letters[bits / 262144],
                letters[bits / 4096 % 64],
                letters[bits / 64 % 64],
                letters[bits % 64],
            ]
        }),
{
    let bits = 65536 * bytes[3 * g] + 256 * bytes[3 * g + 1] + bytes[3 * g + 2];
    lemma_group(bytes, g, bits);
}

/// One byte that is left at the end becomes two characters and two signs of
/// padding, two bytes become three characters and one.
pub proof fn law_base64_end(bytes: Seq<u8>, g: int)
    requires
        0 <= g,
        3 * g < bytes.len() < 3 * g + 3,
    ensures
        ({
            let letters = "ABCDEFGHIJKLMNOPQRSTUVWXYZabcdefghijklmnopqrstuvwxyz0123456789+/"@;
            let two = bytes.len() == 3 * g + 2;
            let bits = 65536 * bytes[3 * g] + if two {
                256 * bytes[3 * g + 1]
            } else {
                0
            };
            &&& base64_text(bytes).len() == 4 * g + 4
            &&& base64_text(bytes).skip(4 * g) == seq![
                letters[bits / 262144],
                letters[bits / 4096 % 64],
                if two {
                    letters[bits / 64 % 64]
                } else {
                    '='
                },
                '=',
            ]
        }),
{
    let bits = 65536 * byte_or_zero(bytes, 3 * g) + 256 * byte_or_zero(bytes, 3 * g + 1)
        + byte_or_zero(bytes, 3 * g + 2);
    lemma_group(bytes, g, bits);
    assert(base64_text(bytes).skip(4 * g) =~= base64_text(bytes).subrange(4 * g, 4 * g + 4));
}

proof fn lemma_sextets(a: int, b: int, c: int)
    requires
        0 <= a < 256,
        0 <= b < 256,
        0 <= c < 256,
    ensures
        ({
            let bits = 65536 * a + 256 * b + c;
            &&& bits / 262144 == a / 4
            &&& bits / 4096 % 64 == a % 4 * 16 + b / 16
            &&& bits / 64 % 64 == b % 16 * 4 + c / 64
            &&& bits % 64 == c % 64
            &&& 0 <= bits / 262144 < 64
        }),
{
    let bits = 65536 * a + 256 * b + c;
    assert(bits / 4096 == 16 * a + b / 16);
    assert(bits / 64 == 1024 * a + 4 * b + c / 64);
}

proof fn lemma_group(bytes: Seq<u8>, g: int, bits: int)
    requires
        0 <= g,
        3 * g < bytes.len(),
        bits == 65536 * byte_or_zero(bytes, 3 * g) + 256 * byte_or_zero(bytes, 3 * g + 1)
            + byte_or_zero(bytes, 3 * g + 2),
    ensures
        4 * g + 4 <= base64_text(bytes).len(),
        base64_text(bytes).subrange(4 * g, 4 * g + 4) == seq![
            base64_alphabet()[bits / 262144],
            base64_alphabet()[bits / 4096 % 64],
            if 3 * g + 1 < bytes.len() {
                base64_alphabet()[bits / 64 % 64]
            } else {
                '='
            },
            if 3 * g + 2 < bytes.len() {
                base64_alphabet()[bits % 64]
            } else {
                '='
            },
        ],
{
    let s = base64_text(bytes);
    let i = 4 * g;
    assert(i / 4 == g && (i + 1) / 4 == g && (i + 2) / 4 == g && (i + 3) / 4 == g);
    assert(i % 4 == 0 && (i + 1) % 4 == 1 && (i + 2) % 4 == 2 && (i + 3) % 4 == 3);
    let a = byte_or_zero(bytes, 3 * g);
    let b = byte_or_zero(bytes, 3 * g + 1);
    let c = byte_or_zero(bytes, 3 * g + 2);
    assert(six_bits(bytes, i) == a / 4);
    assert(six_bits(bytes, i + 1) == a % 4 * 16 + b / 16);
    assert(six_bits(bytes, i + 2) == b % 16 * 4 + c / 64);
    assert(six_bits(bytes, i + 3) == c % 64);
    lemma_sextets(a, b, c);
    lemma_base64_alphabet(bits / 262144);
    lemma_base64_alphabet(bits / 4096 % 64);
    lemma_base64_alphabet(bits / 64 % 64);
    lemma_base64_alphabet(bits % 64);
    let four = s.subrange(i, i + 4);
    assert(four[0] == s[i] && four[1] == s[i + 1] && four[2] == s[i + 2] && four[3] == s[i + 3]);
}

} // verus!
