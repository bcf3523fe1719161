//! The C header that carries a converted picture: a comment naming its
//! orientation, size and format, then its bytes as a `uint8_t` array.

use crate::encoding::{format_name, OutputFormat};
use crate::geometry::{orientation_name, Orientation};
use vstd::prelude::*;
use vstd::string::StringExecFns;

verus! {

/// The text of one digit, `0`-`9` then `a`-`f`.
pub open spec fn digit_text(d: nat) -> Seq<char> {
    if d == 0 { "0"@ }
    else if d == 1 { "1"@ }
    else if d == 2 { "2"@ }
    else if d == 3 { "3"@ }
    else if d == 4 { "4"@ }
    else if d == 5 { "5"@ }
    else if d == 6 { "6"@ }
    else if d == 7 { "7"@ }
    else if d == 8 { "8"@ }
    else if d == 9 { "9"@ }
    else if d == 10 { "a"@ }
    else if d == 11 { "b"@ }
    else if d == 12 { "c"@ }
    else if d == 13 { "d"@ }
    else if d == 14 { "e"@ }
    else { "f"@ }
}

/// `n` written in `base` (from 2 to 16) without leading zeros; 0 is `0`.
pub open spec fn digits_in(n: nat, base: nat) -> Seq<char>
    decreases n,
{
    if base < 2 || n < base {
        digit_text(n)
    } else {
        proof {
            vstd::arithmetic::div_mod::lemma_div_decreases(n as int, base as int);
        }
        digits_in(n / base, base) + digit_text(n % base)
    }
}

/// The lines that list `bytes`: each on a new line, indented by four spaces,
/// as a lowercase hex literal followed by a comma.
pub open spec fn byte_lines(bytes: Seq<u8>) -> Seq<char>
    decreases bytes.len(),
{
    if bytes.len() == 0 {
        Seq::empty()
    } else {
        byte_lines(bytes.drop_last()) + "\n    0x"@ + digits_in(bytes.last() as nat, 16) + ","@
    }
}

/// The whole header for a `width` x `height` picture of the given
/// orientation, packed in `format` into `bytes`, under `array_name`.
pub open spec fn header_text(
    orientation: Orientation,
    width: u32,
    height: u32,
    format: OutputFormat,
    array_name: Seq<char>,
    bytes: Seq<u8>,
) -> Seq<char> {
    "/* "@ + orientation_name(orientation) + " - "@ + digits_in(width as nat, 10) + "x"@
        + digits_in(height as nat, 10) + " - "@ + format_name(format) + "*/\nconst uint8_t "@
        + array_name + "["@ + digits_in(bytes.len(), 10) + "] = {"@ + byte_lines(bytes) + "};"@
}

fn digit_str(d: u64) -> (r: &'static str)
    requires
        d < 16,
    ensures
        r@ == digit_text(d as nat),
{
    match d {
        0 => "0",
        1 => "1",
        2 => "2",
        3 => "3",
        4 => "4",
        5 => "5",
        6 => "6",
        7 => "7",
        8 => "8",
        9 => "9",
        10 => "a",
        11 => "b",
        12 => "c",
        13 => "d",
        14 => "e",
        _ => "f",
    }
}

fn append_digits(s: &mut String, n: u64, base: u64)
    requires
        2 <= base <= 16,
    ensures
        final(s)@ == old(s)@ + digits_in(n as nat, base as nat),
    decreases n,
{
    if n >= base {
        proof {
            vstd::arithmetic::div_mod::lemma_div_decreases(n as int, base as int);
        }
        append_digits(s, n / base, base);
    } else {
        proof {
            vstd::arithmetic::div_mod::lemma_small_mod(n as nat, base as nat);
        }
    }
    s.append(digit_str(n % base));
    proof {
        assert(final(s)@ =~= old(s)@ + digits_in(n as nat, base as nat));
    }
}

/// Lays out the header for a converted picture.
pub fn render(
    orientation: Orientation,
    width: u32,
    height: u32,
    format: OutputFormat,
    array_name: &str,
    bytes: &[u8],
) -> (r: String)
    ensures
        r@ == header_text(orientation, width, height, format, array_name@, bytes@),
{
    let mut s = String::new();
    s.append("/* ");
    s.append(orientation.name());
    s.append(" - ");
    append_digits(&mut s, width as u64, 10);
    s.append("x");
    append_digits(&mut s, height as u64, 10);
    s.append(" - ");
    s.append(format.name());
    s.append("*/\nconst uint8_t ");
    s.append(array_name);
    s.append("[");
    append_digits(&mut s, bytes.len() as u64, 10);
    s.append("] = {");
    let ghost head = s@;
    let mut i: usize = 0;
    while i < bytes.len()
        invariant
            i <= bytes@.len(),
            s@ == head + byte_lines(bytes@.take(i as int)),
        decreases bytes@.len() - i,
    {
        s.append("\n    0x");
        append_digits(&mut s, bytes[i] as u64, 16);
        s.append(",");
        proof {
            let t = bytes@.take(i + 1);
            assert(t.drop_last() =~= bytes@.take(i as int));
        }
        i = i + 1;
    }
    s.append("};");
    proof {
        assert(bytes@.take(bytes@.len() as int) =~= bytes@);
    }
    s
}

} // verus!
