//! Text building blocks: what the standard library's string operations do,
//! and the renderings of numbers, addresses and byte lists that the decoded
//! nodes are written out with.

use vstd::prelude::*;

verus! {

/// `String::push` appends one character.
pub assume_specification[ String::push ](s: &mut String, c: char)
    ensures
        final(s)@ == old(s)@.push(c),
;

/// `String::pop` removes the last character and returns it, or returns
/// `None` and leaves an empty string as it is.
pub assume_specification[ String::pop ](s: &mut String) -> (r: Option<char>)
    ensures
        old(s)@.len() > 0 ==> r == Some(old(s)@.last()) && final(s)@ == old(s)@.drop_last(),
        old(s)@.len() == 0 ==> r is None && final(s)@ == old(s)@,
;

/// `needle` occurs in `hay` as a run of consecutive characters.
pub open spec fn is_substring(hay: Seq<char>, needle: Seq<char>) -> bool {
    exists|i: int|
        0 <= i && i + needle.len() <= hay.len() && #[trigger] hay.subrange(i, i + needle.len())
            == needle
}

/// `str::contains` with a string as the pattern: whether the pattern occurs
/// somewhere in the string.
#[verifier::external_body]
pub(crate) fn contains(hay: &str, needle: &str) -> (b: bool)
    ensures
        b == is_substring(hay@, needle@),
{
    hay.contains(needle)
}

/// The character for one digit, in lower case above nine.
pub open spec fn spec_digit(d: int) -> char {
    if d < 10 {
        (48 + d) as u8 as char
    } else {
        (87 + d) as u8 as char
    }
}

/// `n` in decimal, without padding.
pub open spec fn spec_dec(n: nat) -> Seq<char>
    decreases n,
{
    if n < 10 {
        seq![spec_digit(n as int)]
    } else {
        spec_dec(n / 10).push(spec_digit((n % 10) as int))
    }
}

/// `n` in lower-case hexadecimal, without prefix or padding.
pub open spec fn spec_hex(n: nat) -> Seq<char>
    decreases n,
{
    if n < 16 {
        seq![spec_digit(n as int)]
    } else {
        spec_hex(n / 16).push(spec_digit((n % 16) as int))
    }
}

/// A byte as exactly two lower-case hexadecimal digits.
pub open spec fn spec_hex2(b: u8) -> Seq<char> {
    seq![spec_digit(b as int / 16), spec_digit(b as int % 16)]
}

/// `t` moved to the right by spaces until it is `width` characters long; a
/// text that long or longer is left as it is.
pub open spec fn spec_pad_left(t: Seq<char>, width: nat) -> Seq<char> {
    Seq::new(
        if t.len() < width {
            (width - t.len()) as nat
        } else {
            0
        },
        |i: int| ' ',
    ) + t
}

/// `true` or `false`.
pub open spec fn spec_bool(b: bool) -> Seq<char> {
    if b {
        "true"@
    } else {
        "false"@
    }
}

/// An address in dotted decimal.
pub open spec fn spec_ipv4(a: Seq<u8>) -> Seq<char> {
    spec_dec(a[0] as nat) + "."@ + spec_dec(a[1] as nat) + "."@ + spec_dec(a[2] as nat) + "."@
        + spec_dec(a[3] as nat)
}

/// The first `n` bytes written out and separated by a comma and a space.
pub open spec fn spec_bytes_upto(bytes: Seq<u8>, n: int, hex: bool) -> Seq<char>
    decreases n,
{
    if n <= 0 {
        Seq::empty()
    } else {
        let one = if hex {
            spec_hex(bytes[n - 1] as nat)
        } else {
            spec_dec(bytes[n - 1] as nat)
        };
        if n == 1 {
            one
        } else {
            spec_bytes_upto(bytes, n - 1, hex) + ", "@ + one
        }
    }
}

/// A byte list in square brackets, each byte in decimal or in hexadecimal.
pub open spec fn spec_byte_list(bytes: Seq<u8>, hex: bool) -> Seq<char> {
    "["@ + spec_bytes_upto(bytes, bytes.len() as int, hex) + "]"@
}

/// The first `n` lines, each but the first preceded by a line feed.
pub open spec fn spec_lines_upto(lines: Seq<Seq<char>>, n: int) -> Seq<char>
    decreases n,
{
    if n <= 0 {
        Seq::empty()
    } else if n == 1 {
        lines[0]
    } else {
        spec_lines_upto(lines, n - 1) + "\n"@ + lines[n - 1]
    }
}

/// The lines joined by line feeds.
pub open spec fn spec_join_lines(lines: Seq<Seq<char>>) -> Seq<char> {
    spec_lines_upto(lines, lines.len() as int)
}

/// The characters of each string of a list.
pub open spec fn lines_of(v: Seq<String>) -> Seq<Seq<char>> {
    Seq::new(v.len(), |i: int| v[i]@)
}

/// The character for one digit.
pub fn digit(d: u8) -> (c: char)
    requires
        d < 16,
    ensures
        c == spec_digit(d as int),
{
    if d < 10 {
        (48 + d) as char
    } else {
        (87 + d) as char
    }
}

/// Appends `n` in decimal.
pub fn push_dec(s: &mut String, n: u32)
    ensures
        final(s)@ == old(s)@ + spec_dec(n as nat),
    decreases n,
{
    if n >= 10 {
        push_dec(s, n / 10);
    }
    s.push(digit((n % 10) as u8));
}

/// Appends `n` in lower-case hexadecimal.
pub fn push_hex(s: &mut String, n: u32)
    ensures
        final(s)@ == old(s)@ + spec_hex(n as nat),
    decreases n,
{
    if n >= 16 {
        push_hex(s, n / 16);
    }
    s.push(digit((n % 16) as u8));
}

/// Appends a byte as two lower-case hexadecimal digits.
pub fn push_hex2(s: &mut String, b: u8)
    ensures
        final(s)@ == old(s)@ + spec_hex2(b),
{
    s.push(digit(b / 16));
    s.push(digit(b % 16));
}

/// Appends `n` in decimal, moved to the right by spaces to `width` characters.
pub fn push_padded_dec(s: &mut String, n: u32, width: usize)
    ensures
        final(s)@ == old(s)@ + spec_pad_left(spec_dec(n as nat), width as nat),
{
    let mut t = String::new();
    push_dec(&mut t, n);
    let len = t.as_str().unicode_len();
    let mut i: usize = len;
    while i < width
        invariant
            len <= i,
            i == len || i <= width,
            s@ == old(s)@ + Seq::new((i - len) as nat, |k: int| ' '),
        decreases width - i,
    {
        s.push(' ');
        i += 1;
    }
    s.append(t.as_str());
}

/// Appends `true` or `false`.
pub fn push_bool(s: &mut String, b: bool)
    ensures
        final(s)@ == old(s)@ + spec_bool(b),
{
    if b {
        s.append("true");
    } else {
        s.append("false");
    }
}

/// Appends an address in dotted decimal.
pub fn push_ipv4(s: &mut String, a: &[u8; 4])
    ensures
        final(s)@ == old(s)@ + spec_ipv4(a@),
{
    push_dec(s, a[0] as u32);
    s.append(".");
    push_dec(s, a[1] as u32);
    s.append(".");
    push_dec(s, a[2] as u32);
    s.append(".");
    push_dec(s, a[3] as u32);
}

/// Appends a byte list in square brackets, each byte in decimal or in
/// hexadecimal.
pub fn push_byte_list(s: &mut String, bytes: &[u8], hex: bool)
    ensures
        final(s)@ == old(s)@ + spec_byte_list(bytes@, hex),
{
    s.append("[");
    let mut i: usize = 0;
    while i < bytes.len()
        invariant
            i <= bytes@.len(),
            s@ == old(s)@ + "["@ + spec_bytes_upto(bytes@, i as int, hex),
        decreases bytes@.len() - i,
    {
        if i > 0 {
            s.append(", ");
        }
        if hex {
            push_hex(s, bytes[i] as u32);
        } else {
            push_dec(s, bytes[i] as u32);
        }
        i += 1;
    }
    s.append("]");
}

/// Joins the lines by line feeds.
pub fn join_lines(lines: &Vec<String>) -> (s: String)
    ensures
        s@ == spec_join_lines(lines_of(lines@)),
{
    let mut s = String::new();
    let mut i: usize = 0;
    while i < lines.len()
        invariant
            i <= lines@.len(),
            s@ == spec_lines_upto(lines_of(lines@), i as int),
        decreases lines@.len() - i,
    {
        if i > 0 {
            s.append("\n");
        }
        s.append(lines[i].as_str());
        i += 1;
    }
    s
}

} // verus!
