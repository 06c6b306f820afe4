//! Lowercase hexadecimal encoding and decoding of byte strings.

use vstd::prelude::*;
use vstd::string::StringSliceAdditionalSpecFns;

verus! {

/// The lowercase hexadecimal digit for a nibble `n` in `0..16`.
pub open spec fn hex_digit(n: int) -> char {
    if n < 10 {
        (48 + n) as char
    } else {
        (87 + n) as char
    }
}

/// Two lowercase hexadecimal digits per byte, most significant nibble first.
pub open spec fn hex_encode_spec(bytes: Seq<u8>) -> Seq<char>
    decreases bytes.len(),
{
    if bytes.len() == 0 {
        Seq::empty()
    } else {
        let b = bytes.last();
        hex_encode_spec(bytes.drop_last()) + seq![hex_digit((b / 16) as int), hex_digit((b % 16) as int)]
    }
}

/// The value of one hexadecimal digit byte (`0-9`, `a-f`, `A-F`).
pub open spec fn hex_value(b: u8) -> Option<u8> {
    if 48 <= b <= 57 {
        Some((b - 48) as u8)
    } else if 97 <= b <= 102 {
        Some((b - 87) as u8)
    } else if 65 <= b <= 70 {
        Some((b - 55) as u8)
    } else {
        None
    }
}

/// The value that a radix-16 parse gives a two-byte string: either two
/// digits, or a `+` sign followed by one digit.
pub open spec fn pair_value(b0: u8, b1: u8) -> Option<u8> {
    if b0 == 43 {
        hex_value(b1)
    } else {
        match (hex_value(b0), hex_value(b1)) {
            (Some(h), Some(l)) => Some((16 * h + l) as u8),
            _ => None,
        }
    }
}

/// Whether the pair starting at byte `2 * j` parses.
pub open spec fn pair_ok(bytes: Seq<u8>, j: int) -> bool {
    pair_value(bytes[2 * j], bytes[2 * j + 1]) is Some
}

/// Whether every pair before pair `j` parses.
pub open spec fn pairs_ok_before(bytes: Seq<u8>, j: int) -> bool {
    forall|k: int| 0 <= k < j ==> #[trigger] pair_ok(bytes, k)
}

/// The error message of an odd-length input.
pub open spec fn odd_length_message() -> Seq<char> {
    "odd length"@
}

/// The error message of a pair that is not a radix-16 number.
pub open spec fn invalid_digit_message() -> Seq<char> {
    "invalid digit found in string"@
}

/// What decoding gives for the UTF-8 bytes of a string.
pub open spec fn hex_decode_spec(bytes: Seq<u8>) -> Result<Seq<u8>, Seq<char>> {
    if bytes.len() % 2 != 0 {
        Err(odd_length_message())
    } else if exists|j: int| 0 <= j < bytes.len() / 2 && !#[trigger] pair_ok(bytes, j) {
        Err(invalid_digit_message())
    } else {
        Ok(Seq::new((bytes.len() / 2) as nat, |j: int| pair_value(bytes[2 * j], bytes[2 * j + 1]).unwrap()))
    }
}

/// Decoding slices the string two bytes at a time. The slice of the first
/// pair that does not parse must end on a character boundary; every earlier
/// pair is ASCII, so no other slice can split a character.
pub open spec fn hex_decode_slices_whole_chars(bytes: Seq<u8>) -> bool {
    bytes.len() % 2 != 0 || forall|j: int|
        0 <= j < bytes.len() / 2 && !#[trigger] pair_ok(bytes, j) && pairs_ok_before(bytes, j)
            && 2 * j + 2 < bytes.len() ==> !vstd::utf8::is_continuation_byte(bytes[2 * j + 2])
}

fn hex_digit_str(n: u8) -> (s: &'static str)
    requires
        n < 16,
    ensures
        s@ == seq![hex_digit(n as int)],
{
    let table = "0123456789abcdef";
    proof {
        reveal_strlit("0123456789abcdef");
    }
    let s = table.substring_ascii(n as usize, n as usize + 1);
    assert(s@ =~= seq![hex_digit(n as int)]);
    s
}

/// Lowercase hexadecimal encoding, two digits per byte.
pub fn encode(bytes: &[u8]) -> (s: String)
    ensures
        s@ == hex_encode_spec(bytes@),
        s@.len() == 2 * bytes@.len(),
{
    let mut s = String::new();
    let n = bytes.len();
    for i in 0..n
        invariant
            n == bytes@.len(),
            s@ == hex_encode_spec(bytes@.subrange(0, i as int)),
    {
        let b = bytes[i];
        s.append(hex_digit_str(b / 16));
        s.append(hex_digit_str(b % 16));
        proof {
            let pre = bytes@.subrange(0, i + 1);
            assert(pre.drop_last() =~= bytes@.subrange(0, i as int));
            assert(pre.last() == b);
        }
    }
    assert(bytes@.subrange(0, n as int) =~= bytes@);
    proof {
        lemma_hex_encode_shape(bytes@);
    }
    s
}

fn hex_value_exec(b: u8) -> (r: Option<u8>)
    ensures
        r == hex_value(b),
{
    if 48 <= b && b <= 57 {
        Some(b - 48)
    } else if 97 <= b && b <= 102 {
        Some(b - 87)
    } else if 65 <= b && b <= 70 {
        Some(b - 55)
    } else {
        None
    }
}

fn pair_value_exec(b0: u8, b1: u8) -> (r: Option<u8>)
    ensures
        r == pair_value(b0, b1),
{
    if b0 == 43 {
        hex_value_exec(b1)
    } else {
        match (hex_value_exec(b0), hex_value_exec(b1)) {
            (Some(h), Some(l)) => Some(16 * h + l),
            _ => None,
        }
    }
}

/// Whether decoding `s` slices it only on character boundaries.
pub fn slices_whole_chars(s: &str) -> (r: bool)
    ensures
        r == hex_decode_slices_whole_chars(s.spec_bytes()),
{
    let bytes = s.as_bytes();
    let n = bytes.len();
    if n % 2 != 0 {
        return true;
    }
    let mut i: usize = 0;
    while i < n / 2
        invariant
            n == bytes@.len(),
            bytes@ == s.spec_bytes(),
            n % 2 == 0,
            i <= n / 2,
            pairs_ok_before(bytes@, i as int),
        decreases n / 2 - i,
    {
        if pair_value_exec(bytes[2 * i], bytes[2 * i + 1]).is_none() {
            assert(!pair_ok(bytes@, i as int));
            assert forall|j: int|
                0 <= j < bytes@.len() / 2 && !#[trigger] pair_ok(bytes@, j) && pairs_ok_before(bytes@, j)
                implies j == i by {
                if j < i {
                    assert(pair_ok(bytes@, j));
                } else if j > i {
                    assert(pair_ok(bytes@, i as int));
                }
            }
            if 2 * i + 2 < n {
                let next = bytes[2 * i + 2];
                return !(0x80 <= next && next <= 0xbf);
            }
            return true;
        }
        assert(pair_ok(bytes@, i as int));
        i = i + 1;
    }
    true
}

/// Decodes a hexadecimal string two bytes at a time, as a radix-16 parse of
/// each pair: an odd length or a pair that is not a number is an error.
pub fn decode(s: &str) -> (r: Result<Vec<u8>, String>)
    requires
        hex_decode_slices_whole_chars(s.spec_bytes()),
    ensures
        match hex_decode_spec(s.spec_bytes()) {
            Ok(v) => r matches Ok(out) && out@ == v,
            Err(m) => r matches Err(e) && e@ == m,
        },
{
    let bytes = s.as_bytes();
    let n = bytes.len();
    if n % 2 != 0 {
        let e = String::from_str("odd length");
        proof {
            reveal_strlit("odd length");
        }
        return Err(e);
    }
    let mut out: Vec<u8> = Vec::new();
    let mut i: usize = 0;
    while i < n / 2
        invariant
            n == bytes@.len(),
            bytes@ == s.spec_bytes(),
            n % 2 == 0,
            i <= n / 2,
            pairs_ok_before(bytes@, i as int),
            out@ =~= Seq::new(i as nat, |j: int| pair_value(bytes@[2 * j], bytes@[2 * j + 1]).unwrap()),
        decreases n / 2 - i,
    {
        match pair_value_exec(bytes[2 * i], bytes[2 * i + 1]) {
            Some(v) => {
                out.push(v);
                assert(pair_ok(bytes@, i as int));
            },
            None => {
                assert(!pair_ok(bytes@, i as int));
                let e = String::from_str("invalid digit found in string");
                proof {
                    reveal_strlit("invalid digit found in string");
                }
                return Err(e);
            },
        }
        i = i + 1;
    }
    Ok(out)
}


proof fn lemma_hex_encode_shape(bytes: Seq<u8>)
    ensures
        hex_encode_spec(bytes).len() == 2 * bytes.len(),
        forall|j: int|
            0 <= j < bytes.len() ==> {
                &&& #[trigger] hex_encode_spec(bytes)[2 * j] == hex_digit((bytes[j] / 16) as int)
                &&& hex_encode_spec(bytes)[2 * j + 1] == hex_digit((bytes[j] % 16) as int)
            },
    decreases bytes.len(),
{
    if bytes.len() > 0 {
        let pre = bytes.drop_last();
        lemma_hex_encode_shape(pre);
        assert forall|j: int| 0 <= j < bytes.len() implies {
            &&& #[trigger] hex_encode_spec(bytes)[2 * j] == hex_digit((bytes[j] / 16) as int)
            &&& hex_encode_spec(bytes)[2 * j + 1] == hex_digit((bytes[j] % 16) as int)
        } by {
            if j < pre.len() {
                assert(pre[j] == bytes[j]);
                assert(hex_encode_spec(pre)[2 * j] == hex_digit((pre[j] / 16) as int));
            }
        }
    }
}

proof fn lemma_hex_digit_byte(n: int)
    requires
        0 <= n < 16,
    ensures
        '\0' <= hex_digit(n) <= '\u{7f}',
        hex_value(hex_digit(n) as u8) == Some(n as u8),
{
}

/// Decoding the UTF-8 bytes of an encoding gives back the encoded bytes.
pub proof fn lemma_decode_encode(bytes: Seq<u8>)
    ensures
        hex_decode_spec(vstd::utf8::encode_utf8(hex_encode_spec(bytes))) == Ok::<Seq<u8>, Seq<char>>(bytes),
        hex_decode_slices_whole_chars(vstd::utf8::encode_utf8(hex_encode_spec(bytes))),
{
    let chars = hex_encode_spec(bytes);
    lemma_hex_encode_shape(bytes);
    assert forall|i: int| 0 <= i < chars.len() implies '\0' <= #[trigger] chars[i] <= '\u{7f}' by {
        let j = i / 2;
        if i % 2 == 0 {
            assert(i == 2 * j);
            assert(chars[2 * j] == hex_digit((bytes[j] / 16) as int));
            lemma_hex_digit_byte((bytes[j] / 16) as int);
        } else {
            assert(i == 2 * j + 1);
            assert(chars[2 * j] == hex_digit((bytes[j] / 16) as int));
            assert(chars[2 * j + 1] == hex_digit((bytes[j] % 16) as int));
            lemma_hex_digit_byte((bytes[j] % 16) as int);
        }
    }
    vstd::utf8::is_ascii_chars_encode_utf8(chars);
    let enc = vstd::utf8::encode_utf8(chars);
    assert forall|j: int| 0 <= j < bytes.len() implies pair_value(enc[2 * j], enc[2 * j + 1]) == Some(bytes[j]) by {
        assert(chars[2 * j] == hex_digit((bytes[j] / 16) as int));
        assert(chars[2 * j + 1] == hex_digit((bytes[j] % 16) as int));
        lemma_hex_digit_byte((bytes[j] / 16) as int);
        lemma_hex_digit_byte((bytes[j] % 16) as int);
        assert(enc[2 * j] == chars[2 * j] as u8);
        assert(enc[2 * j + 1] == chars[2 * j + 1] as u8);
    }
    assert(!exists|j: int| 0 <= j < enc.len() / 2 && !#[trigger] pair_ok(enc, j));
    assert(enc.len() == 2 * bytes.len());
    assert(Seq::new((enc.len() / 2) as nat, |j: int| pair_value(enc[2 * j], enc[2 * j + 1]).unwrap()) =~= bytes);
}

/// An encoding has two characters per byte, each a lowercase hexadecimal
/// digit (`0-9` or `a-f`).
pub proof fn law_encoding_is_lowercase_hex(bytes: Seq<u8>)
    ensures
        hex_encode_spec(bytes).len() == 2 * bytes.len(),
        forall|i: int| 0 <= i < hex_encode_spec(bytes).len() ==> {
            let c = #[trigger] hex_encode_spec(bytes)[i] as u32;
            (48 <= c <= 57) || (97 <= c <= 102)
        },
{
    lemma_hex_encode_shape(bytes);
    assert forall|i: int| 0 <= i < hex_encode_spec(bytes).len() implies {
        let c = #[trigger] hex_encode_spec(bytes)[i] as u32;
        (48 <= c <= 57) || (97 <= c <= 102)
    } by {
        let j = i / 2;
        assert(0 <= j < bytes.len());
        let n = if i % 2 == 0 {
            (bytes[j] / 16) as int
        } else {
            (bytes[j] % 16) as int
        };
        if i % 2 == 0 {
            assert(i == 2 * j);
            assert(hex_encode_spec(bytes)[2 * j] == hex_digit(n));
        } else {
            assert(i == 2 * j + 1);
            assert(hex_encode_spec(bytes)[2 * j] == hex_digit((bytes[j] / 16) as int));
            assert(hex_encode_spec(bytes)[i] == hex_digit(n));
        }
        assert(0 <= n < 16);
    }
}

} // verus!
