use vstd::prelude::*;

verus! {

/// An ASCII hexadecimal digit, in either case.
pub open spec fn is_hex_digit(c: char) -> bool {
    ('0' <= c && c <= '9') || ('a' <= c && c <= 'f') || ('A' <= c && c <= 'F')
}

/// Every character of `s` is an ASCII hexadecimal digit.
pub open spec fn all_hex_digits(s: Seq<char>) -> bool {
    forall|i: int| 0 <= i < s.len() ==> #[trigger] is_hex_digit(s[i])
}

/// The value of a hexadecimal digit.
pub open spec fn hex_digit_value(c: char) -> u8 {
    if '0' <= c && c <= '9' {
        (c as u32 - '0' as u32) as u8
    } else if 'a' <= c && c <= 'f' {
        (c as u32 - 'a' as u32 + 10) as u8
    } else {
        (c as u32 - 'A' as u32 + 10) as u8
    }
}

/// The upper-case hexadecimal digit of a value below 16.
pub open spec fn hex_digit_char(n: u8) -> char {
    if n < 10 {
        (n + 48) as char
    } else {
        (n + 55) as char
    }
}

/// The byte written by the two digits `digits[2 * i]` and `digits[2 * i + 1]`.
pub open spec fn hex_pair_value(digits: Seq<char>, i: int) -> u8 {
    (hex_digit_value(digits[2 * i]) * 16 + hex_digit_value(digits[2 * i + 1])) as u8
}

/// The bytes written by a sequence of hexadecimal digit pairs.
pub open spec fn hex_pairs(digits: Seq<char>) -> Seq<u8> {
    Seq::new((digits.len() / 2) as nat, |i: int| hex_pair_value(digits, i))
}

/// Two upper-case hexadecimal digits for each byte, most significant first.
pub open spec fn hex_string(bytes: Seq<u8>) -> Seq<char> {
    Seq::new(
        2 * bytes.len(),
        |i: int|
            if i % 2 == 0 {
                hex_digit_char(bytes[i / 2] / 16)
            } else {
                hex_digit_char(bytes[i / 2] % 16)
            },
    )
}

pub proof fn lemma_hex_digit_round_trip(n: u8)
    requires
        n < 16,
    ensures
        is_hex_digit(hex_digit_char(n)),
        hex_digit_value(hex_digit_char(n)) == n,
{
}

/// Reading back the digits written for a byte sequence gives the bytes again.
pub proof fn lemma_hex_string_round_trip(bytes: Seq<u8>)
    ensures
        hex_string(bytes).len() == 2 * bytes.len(),
        all_hex_digits(hex_string(bytes)),
        hex_pairs(hex_string(bytes)) == bytes,
{
    let s = hex_string(bytes);
    assert forall|i: int| 0 <= i < s.len() implies #[trigger] is_hex_digit(s[i]) by {
        lemma_hex_digit_round_trip(bytes[i / 2] / 16);
        lemma_hex_digit_round_trip(bytes[i / 2] % 16);
    }
    assert forall|i: int| 0 <= i < bytes.len() implies #[trigger] hex_pair_value(s, i) == bytes[i] by {
        assert((2 * i) / 2 == i && (2 * i) % 2 == 0);
        assert((2 * i + 1) / 2 == i && (2 * i + 1) % 2 == 1);
        lemma_hex_digit_round_trip(bytes[i] / 16);
        lemma_hex_digit_round_trip(bytes[i] % 16);
    }
    assert(hex_pairs(s) =~= bytes);
}

/// Whether `c` is an ASCII hexadecimal digit.
pub fn is_hex_digit_char(c: char) -> (r: bool)
    ensures
        r == is_hex_digit(c),
{
    ('0' <= c && c <= '9') || ('a' <= c && c <= 'f') || ('A' <= c && c <= 'F')
}

/// The value of the hexadecimal digit `c`.
pub fn digit_value(c: char) -> (r: u8)
    requires
        is_hex_digit(c),
    ensures
        r == hex_digit_value(c),
        r < 16,
{
    if '0' <= c && c <= '9' {
        (c as u32 - '0' as u32) as u8
    } else if 'a' <= c && c <= 'f' {
        (c as u32 - 'a' as u32 + 10) as u8
    } else {
        (c as u32 - 'A' as u32 + 10) as u8
    }
}

/// The upper-case hexadecimal digit for `n`.
pub fn digit_char(n: u8) -> (c: char)
    requires
        n < 16,
    ensures
        c == hex_digit_char(n),
{
    if n < 10 {
        (n + 48) as char
    } else {
        (n + 55) as char
    }
}

/// The digits of a byte sequence with one more byte are those of the
/// sequence followed by the two digits of that byte.
pub proof fn lemma_hex_string_push(bytes: Seq<u8>, b: u8)
    ensures
        hex_string(bytes.push(b)) == hex_string(bytes).push(hex_digit_char(b / 16)).push(
            hex_digit_char(b % 16),
        ),
{
    let longer = bytes.push(b);
    let n = bytes.len() as int;
    assert forall|i: int| 0 <= i < 2 * n implies #[trigger] hex_string(longer)[i] == hex_string(
        bytes,
    )[i] by {
        assert(i / 2 < n);
        assert(longer[i / 2] == bytes[i / 2]);
    }
    assert((2 * n) / 2 == n && (2 * n) % 2 == 0);
    assert((2 * n + 1) / 2 == n && (2 * n + 1) % 2 == 1);
    assert(hex_string(longer) =~= hex_string(bytes).push(hex_digit_char(b / 16)).push(
        hex_digit_char(b % 16),
    ));
}

} // verus!
