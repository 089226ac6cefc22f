//! Textual form of the 16-byte identifiers of plugin classes and interfaces.

use vstd::prelude::*;

verus! {

/// The upper-case hexadecimal digit of a value below 16.
pub open spec fn hex_digit(n: int) -> char {
    if n == 0 {
        '0'
    } else if n == 1 {
        '1'
    } else if n == 2 {
        '2'
    } else if n == 3 {
        '3'
    } else if n == 4 {
        '4'
    } else if n == 5 {
        '5'
    } else if n == 6 {
        '6'
    } else if n == 7 {
        '7'
    } else if n == 8 {
        '8'
    } else if n == 9 {
        '9'
    } else if n == 10 {
        'A'
    } else if n == 11 {
        'B'
    } else if n == 12 {
        'C'
    } else if n == 13 {
        'D'
    } else if n == 14 {
        'E'
    } else {
        'F'
    }
}

/// The value of a signed byte read as unsigned.
pub open spec fn byte_value(b: i8) -> int {
    if b < 0 {
        b + 256
    } else {
        b as int
    }
}

/// The two hexadecimal digits of a byte, high digit first.
pub open spec fn hex_pair(b: i8) -> Seq<char> {
    seq![hex_digit(byte_value(b) / 16), hex_digit(byte_value(b) % 16)]
}

/// Whether a dash follows the byte at position `i`: the text is grouped as
/// 4, 2, 2, 2 and 6 bytes.
pub open spec fn dash_after(i: int) -> bool {
    i == 3 || i == 5 || i == 7 || i == 9
}

/// The text of the leading `n` bytes of an identifier.
pub open spec fn uid_text(uid: Seq<i8>, n: int) -> Seq<char>
    decreases n,
{
    if n <= 0 {
        Seq::empty()
    } else if dash_after(n - 1) {
        (uid_text(uid, n - 1) + hex_pair(uid[n - 1])).push('-')
    } else {
        uid_text(uid, n - 1) + hex_pair(uid[n - 1])
    }
}

/// The one-character text of a hexadecimal digit.
fn digit_text(n: u8) -> (r: &'static str)
    requires
        n < 16,
    ensures
        r@ == seq![hex_digit(n as int)],
{
    proof {
        reveal_strlit("0");
        reveal_strlit("1");
        reveal_strlit("2");
        reveal_strlit("3");
        reveal_strlit("4");
        reveal_strlit("5");
        reveal_strlit("6");
        reveal_strlit("7");
        reveal_strlit("8");
        reveal_strlit("9");
        reveal_strlit("A");
        reveal_strlit("B");
        reveal_strlit("C");
        reveal_strlit("D");
        reveal_strlit("E");
        reveal_strlit("F");
    }
    let r = if n == 0 {
        "0"
    } else if n == 1 {
        "1"
    } else if n == 2 {
        "2"
    } else if n == 3 {
        "3"
    } else if n == 4 {
        "4"
    } else if n == 5 {
        "5"
    } else if n == 6 {
        "6"
    } else if n == 7 {
        "7"
    } else if n == 8 {
        "8"
    } else if n == 9 {
        "9"
    } else if n == 10 {
        "A"
    } else if n == 11 {
        "B"
    } else if n == 12 {
        "C"
    } else if n == 13 {
        "D"
    } else if n == 14 {
        "E"
    } else {
        "F"
    };
    assert(r@ =~= seq![hex_digit(n as int)]);
    r
}

/// Writes an identifier as 32 upper-case hexadecimal digits in groups of
/// 8, 4, 4, 4 and 12, separated by dashes.
pub fn uid_to_ascii(uid: [i8; 16]) -> (r: String)
    ensures
        r@ == uid_text(uid@, 16),
{
    let mut out = String::new();
    let mut i: usize = 0;
    while i < 16
        invariant
            0 <= i <= 16,
            out@ == uid_text(uid@, i as int),
        decreases 16 - i,
    {
        let b: i8 = uid[i];
        let v: u8 = if b < 0 {
            (b as i16 + 256) as u8
        } else {
            b as u8
        };
        let ghost before = out@;
        out.append(digit_text(v / 16));
        out.append(digit_text(v % 16));
        assert(out@ =~= before + hex_pair(b));
        if i == 3 || i == 5 || i == 7 || i == 9 {
            proof {
                reveal_strlit("-");
            }
            out.append("-");
            assert(out@ =~= (before + hex_pair(b)).push('-'));
        }
        i = i + 1;
    }
    out
}

/// The text of an identifier has 36 characters.
pub proof fn lemma_uid_text_len(uid: Seq<i8>)
    ensures
        uid_text(uid, 16).len() == 36,
{
    reveal_with_fuel(uid_text, 17);
}

} // verus!
