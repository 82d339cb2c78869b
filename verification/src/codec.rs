//! Fixed-width base-16 codec for trace and span identifiers.
//!
//! Identifiers travel across process boundaries as strings of exactly
//! sixteen lowercase hexadecimal digits, most significant digit first.
//! Encoding and parsing invert each other, which is what lets an extracted
//! context continue the trace that was injected on the other side.

use vstd::prelude::*;
use vstd::arithmetic::div_mod::{lemma_breakdown, lemma_small_mod};
use vstd::string::StrSliceExecFns;
use vstd::string::StringExecFns;

verus! {

/// Number of hexadecimal digits in an encoded identifier.
pub const ID_DIGITS: usize = 16;

/// `16 ^ n`, the number of identifier values expressible with `n` digits.
pub open spec fn pow16(n: nat) -> nat
    decreases n,
{
    if n == 0 {
        1
    } else {
        16 * pow16((n - 1) as nat)
    }
}

/// The lowercase hexadecimal digit standing for the value `d` (for `d < 16`).
pub open spec fn digit_char(d: nat) -> char {
    if d == 0 {
        '0'
    } else if d == 1 {
        '1'
    } else if d == 2 {
        '2'
    } else if d == 3 {
        '3'
    } else if d == 4 {
        '4'
    } else if d == 5 {
        '5'
    } else if d == 6 {
        '6'
    } else if d == 7 {
        '7'
    } else if d == 8 {
        '8'
    } else if d == 9 {
        '9'
    } else if d == 10 {
        'a'
    } else if d == 11 {
        'b'
    } else if d == 12 {
        'c'
    } else if d == 13 {
        'd'
    } else if d == 14 {
        'e'
    } else {
        'f'
    }
}

/// Whether `c` is a lowercase hexadecimal digit.
pub open spec fn is_hex_digit(c: char) -> bool {
    ||| c == '0'
    ||| c == '1'
    ||| c == '2'
    ||| c == '3'
    ||| c == '4'
    ||| c == '5'
    ||| c == '6'
    ||| c == '7'
    ||| c == '8'
    ||| c == '9'
    ||| c == 'a'
    ||| c == 'b'
    ||| c == 'c'
    ||| c == 'd'
    ||| c == 'e'
    ||| c == 'f'
}

/// The value of the hexadecimal digit `c` (garbage on non-digits).
pub open spec fn hex_val(c: char) -> nat {
    if c == '0' {
        0
    } else if c == '1' {
        1
    } else if c == '2' {
        2
    } else if c == '3' {
        3
    } else if c == '4' {
        4
    } else if c == '5' {
        5
    } else if c == '6' {
        6
    } else if c == '7' {
        7
    } else if c == '8' {
        8
    } else if c == '9' {
        9
    } else if c == 'a' {
        10
    } else if c == 'b' {
        11
    } else if c == 'c' {
        12
    } else if c == 'd' {
        13
    } else if c == 'e' {
        14
    } else {
        15
    }
}

/// The `n`-digit base-16 rendering of `v`, most significant digit first.
/// Only the low `n` digits of `v` are rendered.
pub open spec fn digits(v: nat, n: nat) -> Seq<char>
    decreases n,
{
    if n == 0 {
        Seq::empty()
    } else {
        digits(v / 16, (n - 1) as nat).push(digit_char(v % 16))
    }
}

/// The numeric value of a string of hexadecimal digits, most significant first.
pub open spec fn value_of(s: Seq<char>) -> nat
    decreases s.len(),
{
    if s.len() == 0 {
        0
    } else {
        value_of(s.drop_last()) * 16 + hex_val(s.last())
    }
}

/// Whether every character of `s` is a lowercase hexadecimal digit.
pub open spec fn all_hex(s: Seq<char>) -> bool {
    forall|i: int| 0 <= i < s.len() ==> is_hex_digit(#[trigger] s[i])
}

/// What a candidate identifier string parses to: its value when it is
/// exactly sixteen hexadecimal digits, nothing otherwise.
pub open spec fn parse_id(s: Seq<char>) -> Option<u64> {
    if s.len() == ID_DIGITS && all_hex(s) {
        Some(value_of(s) as u64)
    } else {
        None
    }
}

pub proof fn lemma_pow16_pos(n: nat)
    ensures
        pow16(n) >= 1,
    decreases n,
{
    if n > 0 {
        lemma_pow16_pos((n - 1) as nat);
    }
}

pub proof fn lemma_pow16_mono(a: nat, b: nat)
    requires
        a <= b,
    ensures
        pow16(a) <= pow16(b),
    decreases b,
{
    if a < b {
        lemma_pow16_mono(a, (b - 1) as nat);
        lemma_pow16_pos((b - 1) as nat);
    }
}

/// Sixteen digits cover exactly the 64-bit identifier space.
pub proof fn lemma_pow16_id_digits()
    ensures
        pow16(ID_DIGITS as nat) == 0x1_0000_0000_0000_0000,
{
    assert(pow16(0) == 1);
    assert(pow16(1) == 0x10);
    assert(pow16(2) == 0x100);
    assert(pow16(3) == 0x1000);
    assert(pow16(4) == 0x1_0000);
    assert(pow16(5) == 0x10_0000);
    assert(pow16(6) == 0x100_0000);
    assert(pow16(7) == 0x1000_0000);
    assert(pow16(8) == 0x1_0000_0000);
    assert(pow16(9) == 0x10_0000_0000);
    assert(pow16(10) == 0x100_0000_0000);
    assert(pow16(11) == 0x1000_0000_0000);
    assert(pow16(12) == 0x1_0000_0000_0000);
    assert(pow16(13) == 0x10_0000_0000_0000);
    assert(pow16(14) == 0x100_0000_0000_0000);
    assert(pow16(15) == 0x1000_0000_0000_0000);
    assert(pow16(16) == 0x1_0000_0000_0000_0000);
}

/// Rendering a digit and reading it back is the identity on `0..16`.
pub proof fn lemma_digit_char_val(d: nat)
    requires
        d < 16,
    ensures
        is_hex_digit(digit_char(d)),
        hex_val(digit_char(d)) == d,
{
}

pub proof fn lemma_digits_len(v: nat, n: nat)
    ensures
        digits(v, n).len() == n,
    decreases n,
{
    if n > 0 {
        lemma_digits_len(v / 16, (n - 1) as nat);
    }
}

pub proof fn lemma_digits_all_hex(v: nat, n: nat)
    ensures
        all_hex(digits(v, n)),
    decreases n,
{
    if n > 0 {
        let rest = digits(v / 16, (n - 1) as nat);
        lemma_digits_all_hex(v / 16, (n - 1) as nat);
        lemma_digits_len(v / 16, (n - 1) as nat);
        lemma_digit_char_val(v % 16);
        assert forall|i: int| 0 <= i < digits(v, n).len() implies is_hex_digit(
            #[trigger] digits(v, n)[i],
        ) by {
            if i < n - 1 {
                assert(digits(v, n)[i] == rest[i]);
            } else {
                assert(digits(v, n)[i] == digit_char(v % 16));
            }
        }
    }
}

/// The value read back from an `n`-digit rendering of `v` is `v` reduced
/// to the `n`-digit range.
pub proof fn lemma_value_of_digits(v: nat, n: nat)
    ensures
        value_of(digits(v, n)) == v % pow16(n),
    decreases n,
{
    if n == 0 {
        assert(digits(v, 0) =~= Seq::<char>::empty());
        assert(v % 1 == 0);
    } else {
        let rest = digits(v / 16, (n - 1) as nat);
        let c = digit_char(v % 16);
        assert(digits(v, n) == rest.push(c));
        assert(rest.push(c).drop_last() =~= rest);
        assert(rest.push(c).last() == c);
        lemma_value_of_digits(v / 16, (n - 1) as nat);
        lemma_digit_char_val(v % 16);
        lemma_pow16_pos((n - 1) as nat);
        lemma_breakdown(v as int, 16, pow16((n - 1) as nat) as int);
    }
}

/// Round trip: a sixteen-digit rendering of any identifier parses back to it.
pub proof fn lemma_parse_id_of_digits(v: u64)
    ensures
        parse_id(digits(v as nat, ID_DIGITS as nat)) == Some(v),
{
    lemma_digits_len(v as nat, ID_DIGITS as nat);
    lemma_digits_all_hex(v as nat, ID_DIGITS as nat);
    lemma_value_of_digits(v as nat, ID_DIGITS as nat);
    lemma_pow16_id_digits();
    lemma_small_mod(v as nat, pow16(ID_DIGITS as nat));
}

/// The one-character string holding the digit for `d`.
fn hex_digit_str(d: u8) -> (r: &'static str)
    requires
        d < 16,
    ensures
        r@ == seq![digit_char(d as nat)],
{
    match d {
        0 => {
            proof {
                reveal_strlit("0");
                assert("0"@ =~= seq![digit_char(0nat)]);
            }
            "0"
        },
        1 => {
            proof {
                reveal_strlit("1");
                assert("1"@ =~= seq![digit_char(1nat)]);
            }
            "1"
        },
        2 => {
            proof {
                reveal_strlit("2");
                assert("2"@ =~= seq![digit_char(2nat)]);
            }
            "2"
        },
        3 => {
            proof {
                reveal_strlit("3");
                assert("3"@ =~= seq![digit_char(3nat)]);
            }
            "3"
        },
        4 => {
            proof {
                reveal_strlit("4");
                assert("4"@ =~= seq![digit_char(4nat)]);
            }
            "4"
        },
        5 => {
            proof {
                reveal_strlit("5");
                assert("5"@ =~= seq![digit_char(5nat)]);
            }
            "5"
        },
        6 => {
            proof {
                reveal_strlit("6");
                assert("6"@ =~= seq![digit_char(6nat)]);
            }
            "6"
        },
        7 => {
            proof {
                reveal_strlit("7");
                assert("7"@ =~= seq![digit_char(7nat)]);
            }
            "7"
        },
        8 => {
            proof {
                reveal_strlit("8");
                assert("8"@ =~= seq![digit_char(8nat)]);
            }
            "8"
        },
        9 => {
            proof {
                reveal_strlit("9");
                assert("9"@ =~= seq![digit_char(9nat)]);
            }
            "9"
        },
        10 => {
            proof {
                reveal_strlit("a");
                assert("a"@ =~= seq![digit_char(10nat)]);
            }
            "a"
        },
        11 => {
            proof {
                reveal_strlit("b");
                assert("b"@ =~= seq![digit_char(11nat)]);
            }
            "b"
        },
        12 => {
            proof {
                reveal_strlit("c");
                assert("c"@ =~= seq![digit_char(12nat)]);
            }
            "c"
        },
        13 => {
            proof {
                reveal_strlit("d");
                assert("d"@ =~= seq![digit_char(13nat)]);
            }
            "d"
        },
        14 => {
            proof {
                reveal_strlit("e");
                assert("e"@ =~= seq![digit_char(14nat)]);
            }
            "e"
        },
        _ => {
            proof {
                reveal_strlit("f");
                assert("f"@ =~= seq![digit_char(15nat)]);
            }
            "f"
        },
    }
}

/// The value of the digit `c`, or nothing when `c` is not a digit.
fn hex_val_of_char(c: char) -> (r: Option<u8>)
    ensures
        r is Some <==> is_hex_digit(c),
        r matches Some(d) ==> d < 16 && d as nat == hex_val(c),
{
    match c {
        '0' => Some(0),
        '1' => Some(1),
        '2' => Some(2),
        '3' => Some(3),
        '4' => Some(4),
        '5' => Some(5),
        '6' => Some(6),
        '7' => Some(7),
        '8' => Some(8),
        '9' => Some(9),
        'a' => Some(10),
        'b' => Some(11),
        'c' => Some(12),
        'd' => Some(13),
        'e' => Some(14),
        'f' => Some(15),
        _ => None,
    }
}

fn encode_digits(v: u64, n: usize) -> (s: String)
    ensures
        s@ == digits(v as nat, n as nat),
    decreases n,
{
    if n == 0 {
        let s = String::new();
        proof {
            assert(s@ =~= digits(v as nat, 0));
        }
        s
    } else {
        let mut s = encode_digits(v / 16, n - 1);
        let d = (v % 16) as u8;
        s.append(hex_digit_str(d));
        proof {
            assert(s@ =~= digits(v as nat, n as nat));
        }
        s
    }
}

/// Render `v` as exactly sixteen lowercase hexadecimal digits.
pub fn encode_id(v: u64) -> (s: String)
    ensures
        s@ == digits(v as nat, ID_DIGITS as nat),
        s@.len() == ID_DIGITS,
{
    proof {
        lemma_digits_len(v as nat, ID_DIGITS as nat);
    }
    encode_digits(v, ID_DIGITS)
}

/// Parse a sixteen-digit identifier; malformed input yields nothing.
pub fn parse_id_str(s: &str) -> (r: Option<u64>)
    ensures
        r == parse_id(s@),
{
    let n = s.unicode_len();
    if n != ID_DIGITS {
        return None;
    }
    let mut acc: u64 = 0;
    let mut i: usize = 0;
    proof {
        lemma_pow16_id_digits();
    }
    while i < ID_DIGITS
        invariant
            s@.len() == ID_DIGITS,
            0 <= i <= ID_DIGITS,
            forall|j: int| 0 <= j < i ==> is_hex_digit(#[trigger] s@[j]),
            acc as nat == value_of(s@.take(i as int)),
            (acc as nat) < pow16(i as nat),
            pow16(ID_DIGITS as nat) == 0x1_0000_0000_0000_0000,
        decreases ID_DIGITS - i,
    {
        let c = s.get_char(i);
        match hex_val_of_char(c) {
            Some(d) => {
                proof {
                    let prefix = s@.take(i as int);
                    let next = s@.take(i as int + 1);
                    assert(next.drop_last() =~= prefix);
                    assert(next.last() == s@[i as int]);
                    lemma_pow16_mono((i + 1) as nat, ID_DIGITS as nat);
                    assert(acc * 16 <= (pow16(i as nat) - 1) * 16) by (nonlinear_arith)
                        requires
                            acc as nat <= pow16(i as nat) - 1,
                    ;
                    assert(pow16((i + 1) as nat) == 16 * pow16(i as nat));
                }
                acc = acc * 16 + (d as u64);
                i += 1;
            },
            None => {
                assert(!is_hex_digit(s@[i as int]));
                assert(!all_hex(s@));
                return None;
            },
        }
    }
    proof {
        assert(s@.take(ID_DIGITS as int) =~= s@);
    }
    Some(acc)
}

} // verus!
