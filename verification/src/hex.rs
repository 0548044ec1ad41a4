//! Lowercase hexadecimal encoding and decoding of byte strings, used for
//! content hashes, password digests and tokens.

use vstd::prelude::*;

verus! {

/// The sixteen hexadecimal digits, in value order.
pub open spec fn hex_digits() -> Seq<char> {
    seq!['0', '1', '2', '3', '4', '5', '6', '7', '8', '9', 'a', 'b', 'c', 'd', 'e', 'f']
}

/// The digit character for one value below sixteen.
pub open spec fn nibble_char(n: int) -> char {
    hex_digits()[n]
}

/// The hexadecimal spelling of a byte string: two digits per byte, high
/// nibble first.
pub open spec fn hex_of(bytes: Seq<u8>) -> Seq<char> {
    Seq::new(
        bytes.len() * 2,
        |i: int|
            if i % 2 == 0 {
                nibble_char(bytes[i / 2] as int / 16)
            } else {
                nibble_char(bytes[i / 2] as int % 16)
            },
    )
}

/// The value of one digit character, sixteen if it is no hexadecimal digit.
/// Both letter cases are read.
pub open spec fn hex_val(c: char) -> int {
    if c == '0' {
        0
    } else if c == '1' {
        1
    } else if c == '2' {
        2
    } else if c == '3' {
        3
    } else if c == '4' {
        4
    } else if c == '5' {
        5
    } else if c == '6' {
        6
    } else if c == '7' {
        7
    } else if c == '8' {
        8
    } else if c == '9' {
        9
    } else if c == 'a' || c == 'A' {
        10
    } else if c == 'b' || c == 'B' {
        11
    } else if c == 'c' || c == 'C' {
        12
    } else if c == 'd' || c == 'D' {
        13
    } else if c == 'e' || c == 'E' {
        14
    } else if c == 'f' || c == 'F' {
        15
    } else {
        16
    }
}

/// Whether a character is a hexadecimal digit, either case.
pub open spec fn is_hex_digit(c: char) -> bool {
    hex_val(c) < 16
}

/// Appends the digit character of one value below sixteen.
pub fn push_nibble(s: &mut String, n: u8)
    requires
        n < 16,
    ensures
        final(s)@ == old(s)@.push(nibble_char(n as int)),
{
    let digit: &str = match n {
        0 => "0",
        1 => "1",
        2 => "2",
        3 => "3",
        4 => "4",
        5 => "5",
        6 => "6",
        7 => "7",
        8 => "8",
        9 => "9",
        10 => "a",
        11 => "b",
        12 => "c",
        13 => "d",
        14 => "e",
        _ => "f",
    };
    proof {
        reveal_strlit("0");
        reveal_strlit("1");
        reveal_strlit("2");
        reveal_strlit("3");
        reveal_strlit("4");
        reveal_strlit("5");
        reveal_strlit("6");
        reveal_strlit("7");
        reveal_strlit("8");
        reveal_strlit("9");
        reveal_strlit("a");
        reveal_strlit("b");
        reveal_strlit("c");
        reveal_strlit("d");
        reveal_strlit("e");
        reveal_strlit("f");
        assert(digit@ =~= seq![nibble_char(n as int)]);
    }
    s.append(digit);
    proof {
        assert(s@ =~= old(s)@.push(nibble_char(n as int)));
    }
}

/// Appends the two digit characters of one byte, high nibble first.
pub fn push_byte_hex(s: &mut String, b: u8)
    ensures
        final(s)@ == old(s)@ + hex_of(seq![b]),
{
    push_nibble(s, b / 16);
    push_nibble(s, b % 16);
    proof {
        assert(s@ =~= old(s)@ + hex_of(seq![b]));
    }
}

/// The hexadecimal spelling of a byte string, lowercase, two digits per byte.
#[verifier::loop_isolation(false)]
pub fn to_hex(bytes: &Vec<u8>) -> (r: String)
    ensures
        r@ == hex_of(bytes@),
{
    let mut r = String::new();
    let n = bytes.len();
    let mut i: usize = 0;
    while i < n
        invariant
            i <= n,
            n == bytes@.len(),
            r@ == hex_of(bytes@.take(i as int)),
        decreases n - i,
    {
        push_byte_hex(&mut r, bytes[i]);
        i += 1;
        proof {
            assert(r@ =~= hex_of(bytes@.take(i as int)));
        }
    }
    proof {
        assert(bytes@.take(n as int) =~= bytes@);
    }
    r
}

/// Reads a 64-digit hexadecimal string as 32 bytes. A string of any other
/// length, or one holding a character that is no hexadecimal digit, is
/// rejected with the reason.
#[verifier::loop_isolation(false)]
pub fn from_hex(hex: &str) -> (r: Result<Vec<u8>, &'static str>)
    ensures
        hex@.len() != 64 ==> r == Err::<Vec<u8>, &'static str>("from_hex: bad hexadecimal string length"),
        hex@.len() == 64 && (exists|i: int| 0 <= i < 64 && !is_hex_digit(#[trigger] hex@[i]))
            ==> r == Err::<Vec<u8>, &'static str>("from_hex: bad hexadecimal string"),
        hex@.len() == 64 && (forall|i: int| 0 <= i < 64 ==> is_hex_digit(#[trigger] hex@[i]))
            ==> r is Ok && r.unwrap()@.len() == 32 && forall|j: int|
            0 <= j < 32 ==> #[trigger] r.unwrap()@[j] as int == 16 * hex_val(hex@[2 * j])
                + hex_val(hex@[2 * j + 1]),
{
    if hex.unicode_len() != 64 {
        return Err("from_hex: bad hexadecimal string length");
    }
    let mut bytes: Vec<u8> = Vec::new();
    let mut i: usize = 0;
    while i < 32
        invariant
            i <= 32,
            hex@.len() == 64,
            bytes@.len() == i,
            forall|k: int| 0 <= k < 2 * i ==> is_hex_digit(#[trigger] hex@[k]),
            forall|j: int|
                0 <= j < i ==> #[trigger] bytes@[j] as int == 16 * hex_val(hex@[2 * j]) + hex_val(
                    hex@[2 * j + 1],
                ),
        decreases 32 - i,
    {
        let hi = hex_digit_value(hex.get_char(2 * i));
        let lo = hex_digit_value(hex.get_char(2 * i + 1));
        if hi >= 16 || lo >= 16 {
            return Err("from_hex: bad hexadecimal string");
        }
        bytes.push(16 * hi + lo);
        i += 1;
    }
    Ok(bytes)
}

/// The value of one digit character, sixteen if it is no hexadecimal digit.
pub fn hex_digit_value(c: char) -> (v: u8)
    ensures
        v as int == hex_val(c),
{
    match c {
        '0' => 0,
        '1' => 1,
        '2' => 2,
        '3' => 3,
        '4' => 4,
        '5' => 5,
        '6' => 6,
        '7' => 7,
        '8' => 8,
        '9' => 9,
        'a' | 'A' => 10,
        'b' | 'B' => 11,
        'c' | 'C' => 12,
        'd' | 'D' => 13,
        'e' | 'E' => 14,
        'f' | 'F' => 15,
        _ => 16,
    }
}

/// Every character the encoder writes is a digit, and reading a byte's two
/// digits back gives the byte: encoding loses nothing.
pub proof fn lemma_hex_of_reads_back(bytes: Seq<u8>)
    ensures
        hex_of(bytes).len() == bytes.len() * 2,
        forall|i: int| 0 <= i < bytes.len() * 2 ==> is_hex_digit(#[trigger] hex_of(bytes)[i]),
        forall|j: int|
            0 <= j < bytes.len() ==> 16 * hex_val(hex_of(bytes)[2 * j]) + hex_val(
                #[trigger] hex_of(bytes)[2 * j + 1],
            ) == bytes[j],
{
    assert forall|i: int| 0 <= i < bytes.len() * 2 implies is_hex_digit(
        #[trigger] hex_of(bytes)[i],
    ) by {
        let b = bytes[i / 2] as int;
        assert(0 <= b / 16 < 16);
        assert(0 <= b % 16 < 16);
    }
    assert forall|j: int|
        0 <= j < bytes.len() implies 16 * hex_val(hex_of(bytes)[2 * j]) + hex_val(
        #[trigger] hex_of(bytes)[2 * j + 1],
    ) == bytes[j] by {
        let b = bytes[j] as int;
        assert(hex_of(bytes)[2 * j] == nibble_char(b / 16));
        assert(hex_of(bytes)[2 * j + 1] == nibble_char(b % 16));
        assert(hex_val(nibble_char(b / 16)) == b / 16);
        assert(hex_val(nibble_char(b % 16)) == b % 16);
        assert(16 * (b / 16) + b % 16 == b);
    }
}

} // verus!
