//! Character-level helpers shared by the renderer: appending characters,
//! decimal numbers and escaped link destinations to a `String`.
use vstd::prelude::*;
use vstd::string::*;

verus! {

/// Whether `s` ends with a line feed.
pub open spec fn ends_with_newline(s: Seq<char>) -> bool {
    s.len() > 0 && s.last() == '\n'
}

/// The ASCII digit for `d`, where `d < 10`.
pub open spec fn digit_char(d: int) -> char {
    ((d + 48) as u8) as char
}

/// The decimal notation of `n`, most significant digit first, without
/// leading zeros.
pub open spec fn decimal(n: nat) -> Seq<char>
    decreases n,
{
    if n < 10 {
        seq![digit_char(n as int)]
    } else {
        decimal(n / 10).push(digit_char((n % 10) as int))
    }
}

/// The upper-case hexadecimal digit for `d`, where `d < 16`.
pub open spec fn hex_digit(d: int) -> char {
    if d < 10 {
        ((d + 48) as u8) as char
    } else {
        ((d + 55) as u8) as char
    }
}

/// Bytes that may stand unescaped in a link destination.
pub open spec fn href_safe(b: u8) -> bool {
    b == 0x21 || (0x23 <= b && b <= 0x25) || (0x28 <= b && b <= 0x3B) || b == 0x3D || (0x3F <= b
        && b <= 0x5A) || b == 0x5F || (0x61 <= b && b <= 0x7A)
}

/// The escaped form of one byte of a link destination: safe bytes stay,
/// `&` and `'` become character references, and every other byte is
/// percent-encoded.
pub open spec fn escaped_byte(b: u8) -> Seq<char> {
    if href_safe(b) {
        seq![b as char]
    } else if b == 0x26 {
        "&amp;"@
    } else if b == 0x27 {
        "&#x27;"@
    } else {
        seq!['%', hex_digit(b as int / 16), hex_digit(b as int % 16)]
    }
}

/// The escaped form of a link destination given by its UTF-8 bytes.
pub open spec fn href_escaped(bytes: Seq<u8>) -> Seq<char>
    decreases bytes.len(),
{
    if bytes.len() == 0 {
        seq![]
    } else {
        href_escaped(bytes.drop_last()) + escaped_byte(bytes.last())
    }
}

/// Relies on String::push: the character is added at the end.
#[verifier::external_body]
pub(crate) fn push_char(s: &mut String, c: char)
    ensures
        final(s)@ == old(s)@.push(c),
{
    s.push(c);
}

/// Appends `t` to `s`.
pub fn push_str(s: &mut String, t: &str)
    ensures
        final(s)@ == old(s)@ + t@,
{
    s.append(t);
}

/// Whether `s` ends with a line feed.
pub fn str_ends_with_newline(s: &str) -> (r: bool)
    ensures
        r == ends_with_newline(s@),
{
    let n = s.unicode_len();
    if n == 0 {
        false
    } else {
        s.get_char(n - 1) == '\n'
    }
}

/// Appends the decimal notation of `n` to `s`.
pub fn push_decimal(s: &mut String, n: usize)
    ensures
        final(s)@ == old(s)@ + decimal(n as nat),
    decreases n,
{
    if n >= 10 {
        push_decimal(s, n / 10);
    }
    let d: u8 = (n % 10) as u8;
    push_char(s, (d + 48) as char);
    assert(final(s)@ =~= old(s)@ + decimal(n as nat));
}

fn hex_char(d: u8) -> (c: char)
    requires
        d < 16,
    ensures
        c == hex_digit(d as int),
{
    if d < 10 {
        (d + 48) as char
    } else {
        (d + 55) as char
    }
}

/// Appends the link destination `s` to `out`, escaped byte by byte.
pub fn escape_href(out: &mut String, s: &str)
    ensures
        final(out)@ == old(out)@ + href_escaped(s.spec_bytes()),
{
    let bytes = s.as_bytes();
    let ghost start = out@;
    let mut i: usize = 0;
    while i < bytes.len()
        invariant
            i <= bytes@.len(),
            bytes@ == s.spec_bytes(),
            out@ == start + href_escaped(bytes@.subrange(0, i as int)),
            start == old(out)@,
        decreases bytes@.len() - i,
    {
        let c: u8 = bytes[i];
        if (c == 0x21 || (0x23 <= c && c <= 0x25) || (0x28 <= c && c <= 0x3B) || c == 0x3D || (0x3F
            <= c && c <= 0x5A) || c == 0x5F || (0x61 <= c && c <= 0x7A)) {
            push_char(out, c as char);
        } else if c == 0x26 {
            push_str(out, "&amp;");
        } else if c == 0x27 {
            push_str(out, "&#x27;");
        } else {
            push_char(out, '%');
            push_char(out, hex_char(c / 16));
            push_char(out, hex_char(c % 16));
        }
        assert(bytes@.subrange(0, i + 1).drop_last() =~= bytes@.subrange(0, i as int));
        i = i + 1;
        assert(out@ =~= start + href_escaped(bytes@.subrange(0, i as int)));
    }
    assert(bytes@.subrange(0, i as int) =~= bytes@);
}

} // verus!
