//! Digests and how they are written.

use vstd::prelude::*;
use vstd::string::StringExecFns;

verus! {

/// The MD5 digest of `data`, as RFC 1321 defines it: 16 bytes.
pub uninterp spec fn md5_digest(data: Seq<u8>) -> Seq<u8>;

/// Number of bytes in a digest.
pub const DIGEST_LEN: usize = 16;

/// Calls `md5::compute` and hands back the 16 bytes of the `Digest` it returns.
/// Trusted: the bytes are the MD5 digest of `data`, which depends on `data` alone.
#[verifier::external_body]
pub(crate) fn md5_compute(data: &[u8]) -> (digest: Vec<u8>)
    ensures
        digest@ == md5_digest(data@),
        digest@.len() == DIGEST_LEN,
{
    md5::compute(data).0.to_vec()
}

/// The lower-case hexadecimal digit for a value below 16.
pub open spec fn hex_digit(value: int) -> char {
    if value == 0 {
        '0'
    } else if value == 1 {
        '1'
    } else if value == 2 {
        '2'
    } else if value == 3 {
        '3'
    } else if value == 4 {
        '4'
    } else if value == 5 {
        '5'
    } else if value == 6 {
        '6'
    } else if value == 7 {
        '7'
    } else if value == 8 {
        '8'
    } else if value == 9 {
        '9'
    } else if value == 10 {
        'a'
    } else if value == 11 {
        'b'
    } else if value == 12 {
        'c'
    } else if value == 13 {
        'd'
    } else if value == 14 {
        'e'
    } else {
        'f'
    }
}

/// Two lower-case hexadecimal digits for every byte, the high half first.
pub open spec fn hex_lower(bytes: Seq<u8>) -> Seq<char> {
    Seq::new(
        2 * bytes.len(),
        |i: int|
            if i % 2 == 0 {
                hex_digit(bytes[i / 2] as int / 16)
            } else {
                hex_digit(bytes[i / 2] as int % 16)
            },
    )
}

/// Whether `c` is a lower-case hexadecimal digit.
pub open spec fn is_hex_digit(c: char) -> bool {
    ('0' <= c <= '9') || ('a' <= c <= 'f')
}

/// Whether `text` is a digest in lower-case hexadecimal: two digits for each of its bytes, and
/// nothing else.
pub open spec fn is_hex_digest(text: Seq<char>) -> bool {
    &&& text.len() == 2 * DIGEST_LEN
    &&& forall|i: int| 0 <= i < text.len() ==> is_hex_digit(#[trigger] text[i])
}

/// What `hex_lower` writes is made of lower-case hexadecimal digits, two for each byte.
pub proof fn lemma_hex_lower_is_hex(bytes: Seq<u8>)
    ensures
        hex_lower(bytes).len() == 2 * bytes.len(),
        forall|i: int| 0 <= i < hex_lower(bytes).len() ==> is_hex_digit(#[trigger] hex_lower(bytes)[i]),
{
    assert forall|i: int| 0 <= i < hex_lower(bytes).len() implies is_hex_digit(
        #[trigger] hex_lower(bytes)[i],
    ) by {
        let byte = bytes[i / 2] as int;
        assert(0 <= byte / 16 < 16);
        assert(0 <= byte % 16 < 16);
    }
}

/// The one-character string that holds the hexadecimal digit for `value`.
pub(crate) fn hex_digit_str(value: u8) -> (digit: &'static str)
    requires
        value < 16,
    ensures
        digit@ == seq![hex_digit(value as int)],
{
    proof {
        reveal_strlit("0");
        reveal_strlit("1");
        reveal_strlit("2");
        reveal_strlit("3");
        reveal_strlit("4");
        reveal_strlit("5");
        reveal_strlit("6");
        reveal_strlit("7");
        reveal_strlit("8");
        reveal_strlit("9");
        reveal_strlit("a");
        reveal_strlit("b");
        reveal_strlit("c");
        reveal_strlit("d");
        reveal_strlit("e");
        reveal_strlit("f");
    }
    let digit = match value {
        0 => "0",
        1 => "1",
        2 => "2",
        3 => "3",
        4 => "4",
        5 => "5",
        6 => "6",
        7 => "7",
        8 => "8",
        9 => "9",
        10 => "a",
        11 => "b",
        12 => "c",
        13 => "d",
        14 => "e",
        _ => "f",
    };
    assert(digit@ =~= seq![hex_digit(value as int)]);
    digit
}

/// Writes `bytes` in lower-case hexadecimal.
pub fn to_hex(bytes: &[u8]) -> (hex: String)
    ensures
        hex@ == hex_lower(bytes@),
{
    let mut hex = String::new();
    let mut i: usize = 0;
    while i < bytes.len()
        invariant
            i <= bytes@.len(),
            hex@ == hex_lower(bytes@.take(i as int)),
        decreases bytes@.len() - i,
    {
        let byte = bytes[i];
        let ghost before = hex@;
        hex.append(hex_digit_str(byte / 16));
        hex.append(hex_digit_str(byte % 16));
        assert(hex@ =~= hex_lower(bytes@.take(i + 1))) by {
            assert(hex@ == before + seq![hex_digit(byte as int / 16)] + seq![
                hex_digit(byte as int % 16),
            ]);
            assert forall|j: int| 0 <= j < 2 * (i + 1) implies hex@[j] == hex_lower(
                bytes@.take(i + 1),
            )[j] by {
                if j < 2 * i {
                    assert(bytes@.take(i as int)[j / 2] == bytes@.take(i + 1)[j / 2]);
                } else {
                    assert(j / 2 == i);
                }
            }
        }
        i += 1;
    }
    assert(bytes@.take(bytes@.len() as int) =~= bytes@);
    hex
}

/// No two byte strings are written alike in hexadecimal.
pub proof fn lemma_hex_lower_injective(a: Seq<u8>, b: Seq<u8>)
    requires
        hex_lower(a) == hex_lower(b),
    ensures
        a == b,
{
    assert(hex_lower(a).len() == 2 * a.len());
    assert(hex_lower(b).len() == 2 * b.len());
    assert forall|i: int| 0 <= i < a.len() implies a[i] == b[i] by {
        let x = a[i] as int;
        let y = b[i] as int;
        let even = 2 * i;
        let odd = 2 * i + 1;
        assert(even / 2 == i && even % 2 == 0);
        assert(odd / 2 == i && odd % 2 == 1);
        assert(hex_lower(a)[even] == hex_digit(x / 16));
        assert(hex_lower(b)[even] == hex_digit(y / 16));
        assert(hex_lower(a)[odd] == hex_digit(x % 16));
        assert(hex_lower(b)[odd] == hex_digit(y % 16));
        assert(0 <= x / 16 < 16 && 0 <= y / 16 < 16);
        assert(x / 16 == y / 16);
        assert(x % 16 == y % 16);
    }
    assert(a =~= b);
}

} // verus!
