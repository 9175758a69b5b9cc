//! Hexadecimal text to bytes.
//!
//! Frames are often written down as text such as `68 04 01 00 06 00` or
//! `[68] [04] ...`. Everything that is not a hexadecimal digit is dropped;
//! the digits that remain are read in pairs, high nibble first.

use vstd::prelude::*;

verus! {

/// Why a text could not be turned into bytes.
#[derive(Clone, Copy, Debug, PartialEq, Eq, Structural)]
pub enum InputFormatError {
    /// The text holds an odd number of hexadecimal digits.
    OddDigitCount,
}

/// Whether `c` is one of `0-9`, `a-f`, `A-F`.
pub open spec fn is_hex_digit(c: char) -> bool {
    ||| '0' <= c <= '9'
    ||| 'a' <= c <= 'f'
    ||| 'A' <= c <= 'F'
}

/// The value, 0 to 15, of a hexadecimal digit.
pub open spec fn hex_value(c: char) -> int
    recommends
        is_hex_digit(c),
{
    if '0' <= c <= '9' {
        c as int - 48
    } else if 'a' <= c <= 'f' {
        c as int - 87
    } else {
        c as int - 55
    }
}

/// The values of the hexadecimal digits of `s`, in order; all other
/// characters are left out.
pub open spec fn nibbles(s: Seq<char>) -> Seq<int>
    decreases s.len(),
{
    if s.len() == 0 {
        Seq::empty()
    } else if is_hex_digit(s.last()) {
        nibbles(s.drop_last()).push(hex_value(s.last()))
    } else {
        nibbles(s.drop_last())
    }
}

/// The bytes that pairs of nibbles spell, high nibble first. A last
/// unpaired nibble is not part of the result.
pub open spec fn pair_bytes(n: Seq<int>) -> Seq<u8> {
    Seq::new(n.len() / 2, |i: int| (16 * n[2 * i] + n[2 * i + 1]) as u8)
}

/// Every nibble is between 0 and 15.
pub proof fn lemma_nibbles_range(s: Seq<char>)
    ensures
        forall|i: int| 0 <= i < nibbles(s).len() ==> 0 <= #[trigger] nibbles(s)[i] < 16,
        nibbles(s).len() <= s.len(),
    decreases s.len(),
{
    if s.len() > 0 {
        lemma_nibbles_range(s.drop_last());
    }
}

fn digit_value(c: char) -> (r: Option<u8>)
    ensures
        r is Some <==> is_hex_digit(c),
        r is Some ==> r->0 as int == hex_value(c),
{
    let v: u32 = c as u32;
    if 48 <= v && v <= 57 {
        Some((v - 48) as u8)
    } else if 97 <= v && v <= 102 {
        Some((v - 87) as u8)
    } else if 65 <= v && v <= 70 {
        Some((v - 55) as u8)
    } else {
        None
    }
}

/// Reads the hexadecimal digits of `s` as bytes.
///
/// Characters that are not hexadecimal digits are skipped, wherever they
/// stand. An odd number of digits is an error; no byte is produced then.
pub fn hexstr_to_bytes(s: &str) -> (r: Result<Vec<u8>, InputFormatError>)
    ensures
        nibbles(s@).len() % 2 == 0 ==> r is Ok && r->Ok_0@ == pair_bytes(nibbles(s@)),
        nibbles(s@).len() % 2 != 0 ==> r == Err::<Vec<u8>, InputFormatError>(
            InputFormatError::OddDigitCount,
        ),
{
    let mut out: Vec<u8> = Vec::new();
    let mut high: Option<u8> = None;
    for c in it: s.chars()
        invariant
            it.seq() == s@,
            nibbles(s@.take(it.index())).len() == 2 * out@.len() + (if high is Some {
                1int
            } else {
                0int
            }),
            out@ == pair_bytes(nibbles(s@.take(it.index()))),
            high is Some ==> high->0 < 16 && high->0 as int == nibbles(
                s@.take(it.index()),
            ).last(),
    {
        proof {
            let k = it.index();
            assert(s@.take(k + 1).drop_last() == s@.take(k));
            assert(s@.take(k + 1).last() == c);
            lemma_nibbles_range(s@.take(k + 1));
        }
        match digit_value(c) {
            Some(d) => {
                match high {
                    Some(h) => {
                        out.push(h * 16 + d);
                        high = None;
                    },
                    None => {
                        high = Some(d);
                    },
                }
            },
            None => {},
        }
    }
    proof {
        assert(s@.take(s@.len() as int) == s@);
    }
    match high {
        Some(_) => Err(InputFormatError::OddDigitCount),
        None => Ok(out),
    }
}

} // verus!
