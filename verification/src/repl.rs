//! The session value owned by an interactive front end, and the
//! hexadecimal-text-to-byte decoder that turns an accepted input line
//! into program bytes for the engine.

use vstd::prelude::*;

use crate::vm::VM;
use crate::vm::initial_machine;

verus! {

/// Rejected interactive input: after removing blanks the line is empty,
/// has an odd number of characters, or holds a character that is not a
/// hexadecimal digit. The line is simply discarded; nothing reaches the
/// engine.
#[derive(Debug, PartialEq, Eq, Structural, Clone, Copy)]
pub struct HexError;

/// The characters removed before grouping: ASCII blanks.
pub open spec fn is_blank(c: char) -> bool {
    c == ' ' || c == '\t' || c == '\n' || c == '\r'
}

/// A hexadecimal digit, either case.
pub open spec fn is_hex_digit(c: char) -> bool {
    ('0' <= c && c <= '9') || ('a' <= c && c <= 'f') || ('A' <= c && c <= 'F')
}

/// The numeric value of a hexadecimal digit.
pub open spec fn hex_digit_value(c: char) -> u8
    recommends
        is_hex_digit(c),
{
    if '0' <= c && c <= '9' {
        (c as u32 - 48) as u8
    } else if 'a' <= c && c <= 'f' {
        (c as u32 - 87) as u8
    } else {
        (c as u32 - 55) as u8
    }
}

/// The input with every blank removed, keeping order.
pub open spec fn strip_blanks(s: Seq<char>) -> Seq<char>
    decreases s.len(),
{
    if s.len() == 0 {
        Seq::empty()
    } else {
        let rest = strip_blanks(s.drop_last());
        if is_blank(s.last()) {
            rest
        } else {
            rest.push(s.last())
        }
    }
}

/// The byte one pair of hexadecimal digits stands for: the first digit
/// is the high nibble.
pub open spec fn hex_pair_value(hi: char, lo: char) -> u8
    recommends
        is_hex_digit(hi),
        is_hex_digit(lo),
{
    (hex_digit_value(hi) * 16 + hex_digit_value(lo)) as u8
}

/// The byte sequence an even-length run of hexadecimal digits stands
/// for, two digits to a byte.
pub open spec fn hex_bytes(cs: Seq<char>) -> Seq<u8> {
    Seq::new((cs.len() / 2) as nat, |k: int| hex_pair_value(cs[2 * k], cs[2 * k + 1]))
}

/// The numeric value of one character as a hexadecimal digit, or `None`
/// where it is not one.
fn hex_digit(c: char) -> (r: Option<u8>)
    ensures
        r is Some <==> is_hex_digit(c),
        is_hex_digit(c) ==> r == Some(hex_digit_value(c)),
{
    let u = c as u32;
    if 48 <= u && u <= 57 {
        Some((u - 48) as u8)
    } else if 97 <= u && u <= 102 {
        Some((u - 87) as u8)
    } else if 65 <= u && u <= 70 {
        Some((u - 55) as u8)
    } else {
        None
    }
}

/// Decodes a line of hexadecimal text into program bytes: blanks are
/// removed, the remaining characters are grouped into byte pairs, and a
/// line whose remainder is empty, of odd length, or not made of
/// hexadecimal digits is rejected whole.
pub fn parse_hex(input: &str) -> (r: Result<Vec<u8>, HexError>)
    ensures
        r is Ok <==> {
            let stripped = strip_blanks(input@);
            &&& stripped.len() > 0
            &&& stripped.len() % 2 == 0
            &&& forall|i: int| 0 <= i < stripped.len() ==> is_hex_digit(#[trigger] stripped[i])
        },
        r matches Ok(bytes) ==> bytes@ == hex_bytes(strip_blanks(input@)),
{
    let len = input.unicode_len();
    let mut stripped: Vec<char> = Vec::new();
    let mut i: usize = 0;
    while i < len
        invariant
            i <= len,
            len == input@.len(),
            stripped@ == strip_blanks(input@.subrange(0, i as int)),
        decreases len - i,
    {
        let c = input.get_char(i);
        proof {
            assert(input@.subrange(0, i as int + 1).drop_last() =~= input@.subrange(0, i as int));
            assert(input@.subrange(0, i as int + 1).last() == input@[i as int]);
        }
        if !(c == ' ' || c == '\t' || c == '\n' || c == '\r') {
            stripped.push(c);
        }
        i = i + 1;
    }
    proof {
        assert(input@.subrange(0, len as int) =~= input@);
    }
    if stripped.len() == 0 {
        return Err(HexError);
    }
    if stripped.len() % 2 != 0 {
        return Err(HexError);
    }
    let pairs = stripped.len() / 2;
    let mut bytes: Vec<u8> = Vec::new();
    let mut k: usize = 0;
    while k < pairs
        invariant
            k <= pairs,
            pairs == stripped@.len() / 2,
            stripped@.len() <= usize::MAX,
            stripped@.len() % 2 == 0,
            stripped@ == strip_blanks(input@),
            bytes@ =~= hex_bytes(stripped@).subrange(0, k as int),
            forall|j: int| 0 <= j < 2 * k ==> is_hex_digit(#[trigger] stripped@[j]),
        decreases pairs - k,
    {
        let hi = match hex_digit(stripped[2 * k]) {
            Some(v) => v,
            None => {
                return Err(HexError);
            },
        };
        let lo = match hex_digit(stripped[2 * k + 1]) {
            Some(v) => v,
            None => {
                return Err(HexError);
            },
        };
        bytes.push(hi * 16 + lo);
        proof {
            assert(bytes@ =~= hex_bytes(stripped@).subrange(0, k as int + 1));
        }
        k = k + 1;
    }
    proof {
        assert(bytes@ =~= hex_bytes(stripped@));
    }
    Ok(bytes)
}

/// One interactive session: the engine it drives and the history of
/// accepted command lines. Created at session start, owned by the
/// caller, and destroyed at session end; there is no ambient state.
pub struct Repl {
    pub command_buffer: Vec<String>,
    pub vm: VM,
}

impl Repl {
    /// A fresh session: no history, and a zero-initialized engine.
    pub fn new() -> (r: Repl)
        ensures
            r.command_buffer@.len() == 0,
            r.vm@ == initial_machine(),
    {
        Repl { command_buffer: Vec::new(), vm: VM::new() }
    }
}

} // verus!
