//! Text rendering helpers: upper-case hexadecimal digits, and padding a
//! mnemonic to the fixed column width of an output line.

use vstd::prelude::*;
use vstd::string::StrSliceExecFns;
use vstd::string::StringExecFns;

verus! {

/// The upper-case hexadecimal digit of a value below 16.
pub open spec fn hex_char(n: int) -> char {
    if n == 0 {
        '0'
    } else if n == 1 {
        '1'
    } else if n == 2 {
        '2'
    } else if n == 3 {
        '3'
    } else if n == 4 {
        '4'
    } else if n == 5 {
        '5'
    } else if n == 6 {
        '6'
    } else if n == 7 {
        '7'
    } else if n == 8 {
        '8'
    } else if n == 9 {
        '9'
    } else if n == 10 {
        'A'
    } else if n == 11 {
        'B'
    } else if n == 12 {
        'C'
    } else if n == 13 {
        'D'
    } else if n == 14 {
        'E'
    } else {
        'F'
    }
}

/// A byte as two upper-case hexadecimal digits.
pub open spec fn hex2(b: u8) -> Seq<char> {
    seq![hex_char(b as int / 16), hex_char(b as int % 16)]
}

/// A 16-bit value as four upper-case hexadecimal digits.
pub open spec fn hex4(n: int) -> Seq<char> {
    seq![
        hex_char(n / 4096 % 16),
        hex_char(n / 256 % 16),
        hex_char(n / 16 % 16),
        hex_char(n % 16),
    ]
}

/// `s` left-aligned in a field of `w` spaces: unchanged when already that
/// wide, else filled with spaces on the right.
pub open spec fn pad_to(s: Seq<char>, w: int) -> Seq<char> {
    if s.len() >= w {
        s
    } else {
        s + Seq::new((w - s.len()) as nat, |i: int| ' ')
    }
}

/// The single hexadecimal digit of a value below 16, as a string slice.
fn hex_char_str(n: u8) -> (r: &'static str)
    requires
        n < 16,
    ensures
        r@ =~= seq![hex_char(n as int)],
{
    proof {
        reveal_strlit("0");
        reveal_strlit("1");
        reveal_strlit("2");
        reveal_strlit("3");
        reveal_strlit("4");
        reveal_strlit("5");
        reveal_strlit("6");
        reveal_strlit("7");
        reveal_strlit("8");
        reveal_strlit("9");
        reveal_strlit("A");
        reveal_strlit("B");
        reveal_strlit("C");
        reveal_strlit("D");
        reveal_strlit("E");
        reveal_strlit("F");
    }
    match n {
        0 => "0",
        1 => "1",
        2 => "2",
        3 => "3",
        4 => "4",
        5 => "5",
        6 => "6",
        7 => "7",
        8 => "8",
        9 => "9",
        10 => "A",
        11 => "B",
        12 => "C",
        13 => "D",
        14 => "E",
        _ => "F",
    }
}

/// Appends a byte as two upper-case hexadecimal digits.
pub fn push_hex2(s: &mut String, b: u8)
    ensures
        final(s)@ == old(s)@ + hex2(b),
{
    proof {
        assert(b >> 4 == b / 16) by (bit_vector);
        assert(b & 15 == b % 16) by (bit_vector);
        assert(b / 16 < 16);
    }
    s.append(hex_char_str(b >> 4));
    s.append(hex_char_str(b & 15));
    proof {
        assert(s@ =~= old(s)@ + hex2(b));
    }
}

/// Appends a 16-bit value as four upper-case hexadecimal digits.
pub fn push_hex4(s: &mut String, n: u16)
    ensures
        final(s)@ == old(s)@ + hex4(n as int),
{
    proof {
        assert(n >> 12 == n / 4096 % 16) by (bit_vector);
        assert((n >> 8) & 15 == n / 256 % 16) by (bit_vector);
        assert((n >> 4) & 15 == n / 16 % 16) by (bit_vector);
        assert(n & 15 == n % 16) by (bit_vector);
        assert(n / 4096 % 16 < 16 && n / 256 % 16 < 16 && n / 16 % 16 < 16 && n % 16 < 16);
    }
    s.append(hex_char_str((n >> 12) as u8));
    s.append(hex_char_str(((n >> 8) & 15) as u8));
    s.append(hex_char_str(((n >> 4) & 15) as u8));
    s.append(hex_char_str((n & 15) as u8));
    proof {
        assert(s@ =~= old(s)@ + hex4(n as int));
    }
}

/// Pads `s` on the right with spaces until it is at least 15 characters
/// wide, the mnemonic column width of an output line.
pub fn pad15(s: &mut String)
    ensures
        final(s)@ == pad_to(old(s)@, 15),
{
    let mut n = s.as_str().unicode_len();
    proof {
        assert(s@ =~= old(s)@ + Seq::new((n - old(s)@.len()) as nat, |i: int| ' '));
    }
    while n < 15
        invariant
            old(s)@.len() <= n,
            old(s)@.len() >= 15 ==> n == old(s)@.len(),
            old(s)@.len() < 15 ==> n <= 15,
            n == s@.len(),
            s@ == old(s)@ + Seq::new((n - old(s)@.len()) as nat, |i: int| ' '),
        decreases 15 - n,
    {
        proof {
            reveal_strlit(" ");
        }
        s.append(" ");
        n = n + 1;
        proof {
            assert(s@ =~= old(s)@ + Seq::new((n - old(s)@.len()) as nat, |i: int| ' '));
        }
    }
    proof {
        assert(s@ =~= pad_to(old(s)@, 15));
    }
}

} // verus!
