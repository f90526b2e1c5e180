//! Lowercase hexadecimal rendering of byte sequences: two digits per byte,
//! high nibble first, leading zeroes kept.

use vstd::prelude::*;
use vstd::string::StringExecFns;

verus! {

/// The lowercase hexadecimal digit of a nibble value below sixteen.
pub open spec fn hex_digit(v: u8) -> char
    recommends
        v < 16,
{
    if v == 0 {
        '0'
    } else if v == 1 {
        '1'
    } else if v == 2 {
        '2'
    } else if v == 3 {
        '3'
    } else if v == 4 {
        '4'
    } else if v == 5 {
        '5'
    } else if v == 6 {
        '6'
    } else if v == 7 {
        '7'
    } else if v == 8 {
        '8'
    } else if v == 9 {
        '9'
    } else if v == 10 {
        'a'
    } else if v == 11 {
        'b'
    } else if v == 12 {
        'c'
    } else if v == 13 {
        'd'
    } else if v == 14 {
        'e'
    } else {
        'f'
    }
}

/// Whether `c` is a lowercase hexadecimal digit.
pub open spec fn is_hex_char(c: char) -> bool {
    c == '0' || c == '1' || c == '2' || c == '3' || c == '4' || c == '5' || c == '6' || c == '7'
        || c == '8' || c == '9' || c == 'a' || c == 'b' || c == 'c' || c == 'd' || c == 'e' || c
        == 'f'
}

/// The hexadecimal rendering of a byte sequence: for each byte, the digit
/// of its high nibble and then the digit of its low nibble.
pub open spec fn hex_of(bytes: Seq<u8>) -> Seq<char> {
    Seq::new(
        (bytes.len() * 2) as nat,
        |i: int|
            if i % 2 == 0 {
                hex_digit(bytes[i / 2] >> 4)
            } else {
                hex_digit(bytes[i / 2] & 0x0f)
            },
    )
}

/// Appends the lowercase digit of a nibble value.
fn push_hex_digit(s: &mut String, v: u8)
    requires
        v < 16,
    ensures
        final (s)@ == old(s)@ + seq![hex_digit(v)],
{
    if v == 0 {
        s.append("0");
        proof {
            reveal_strlit("0");
        }
    } else if v == 1 {
        s.append("1");
        proof {
            reveal_strlit("1");
        }
    } else if v == 2 {
        s.append("2");
        proof {
            reveal_strlit("2");
        }
    } else if v == 3 {
        s.append("3");
        proof {
            reveal_strlit("3");
        }
    } else if v == 4 {
        s.append("4");
        proof {
            reveal_strlit("4");
        }
    } else if v == 5 {
        s.append("5");
        proof {
            reveal_strlit("5");
        }
    } else if v == 6 {
        s.append("6");
        proof {
            reveal_strlit("6");
        }
    } else if v == 7 {
        s.append("7");
        proof {
            reveal_strlit("7");
        }
    } else if v == 8 {
        s.append("8");
        proof {
            reveal_strlit("8");
        }
    } else if v == 9 {
        s.append("9");
        proof {
            reveal_strlit("9");
        }
    } else if v == 10 {
        s.append("a");
        proof {
            reveal_strlit("a");
        }
    } else if v == 11 {
        s.append("b");
        proof {
            reveal_strlit("b");
        }
    } else if v == 12 {
        s.append("c");
        proof {
            reveal_strlit("c");
        }
    } else if v == 13 {
        s.append("d");
        proof {
            reveal_strlit("d");
        }
    } else if v == 14 {
        s.append("e");
        proof {
            reveal_strlit("e");
        }
    } else {
        s.append("f");
        proof {
            reveal_strlit("f");
        }
    }
    assert(s@ =~= old(s)@ + seq![hex_digit(v)]);
}

/// Renders a byte sequence as lowercase hexadecimal, two digits per byte.
#[verifier::loop_isolation(false)]
pub fn bytes_to_hex(bytes: &[u8]) -> (r: String)
    ensures
        r@ == hex_of(bytes@),
{
    let len = bytes.len();
    let mut s = String::new();
    let mut i: usize = 0;
    while i < len
        invariant
            i <= len,
            s@ == hex_of(bytes@.take(i as int)),
        decreases len - i,
    {
        let b = bytes[i];
        proof {
            assert(b >> 4 < 16 && b & 0x0f < 16) by (bit_vector);
        }
        push_hex_digit(&mut s, b >> 4);
        push_hex_digit(&mut s, b & 0x0f);
        i += 1;
        assert(s@ =~= hex_of(bytes@.take(i as int)));
    }
    assert(bytes@.take(len as int) =~= bytes@);
    s
}

/// Hexadecimal rendering is total and shape-preserving: every byte sequence
/// renders to exactly twice as many characters, each a lowercase
/// hexadecimal digit, so leading zero bytes render as `00` and nothing is
/// truncated.
pub proof fn lemma_hex_of_well_formed(bytes: Seq<u8>)
    ensures
        hex_of(bytes).len() == 2 * bytes.len(),
        forall|i: int| 0 <= i < hex_of(bytes).len() ==> is_hex_char(#[trigger] hex_of(bytes)[i]),
{
    assert forall|i: int| 0 <= i < hex_of(bytes).len() implies is_hex_char(
        #[trigger] hex_of(bytes)[i],
    ) by {
        let b = bytes[i / 2];
        assert(b >> 4 < 16 && b & 0x0f < 16) by (bit_vector);
    }
}

} // verus!
