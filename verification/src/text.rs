use vstd::prelude::*;
use vstd::string::StringSliceAdditionalSpecFns;

verus! {

/// The ASCII character of a hexadecimal digit value (lower case).
pub open spec fn hex_char_of(v: int) -> char {
    if v < 10 {
        ((48 + v) as u8) as char
    } else {
        ((87 + v) as u8) as char
    }
}

/// Decimal rendering of a number, most significant digit first.
pub open spec fn decimal_chars(n: u64) -> Seq<char>
    decreases n,
{
    if n < 10 {
        seq![hex_char_of(n as int)]
    } else {
        decimal_chars(n / 10) + seq![hex_char_of((n % 10) as int)]
    }
}

/// A one-character literal for a digit value below 16.
pub fn digit_text(v: u8) -> (r: &'static str)
    requires
        v < 16,
    ensures
        r@ == seq![hex_char_of(v as int)],
{
    proof {
        reveal_strlit("0");
        reveal_strlit("1");
        reveal_strlit("2");
        reveal_strlit("3");
        reveal_strlit("4");
        reveal_strlit("5");
        reveal_strlit("6");
        reveal_strlit("7");
        reveal_strlit("8");
        reveal_strlit("9");
        reveal_strlit("a");
        reveal_strlit("b");
        reveal_strlit("c");
        reveal_strlit("d");
        reveal_strlit("e");
        reveal_strlit("f");
    }
    match v {
        0 => "0",
        1 => "1",
        2 => "2",
        3 => "3",
        4 => "4",
        5 => "5",
        6 => "6",
        7 => "7",
        8 => "8",
        9 => "9",
        10 => "a",
        11 => "b",
        12 => "c",
        13 => "d",
        14 => "e",
        _ => "f",
    }
}

/// Appends the decimal rendering of a number.
pub fn push_decimal(out: &mut String, n: u64)
    ensures
        final(out)@ == old(out)@ + decimal_chars(n),
    decreases n,
{
    if n < 10 {
        out.append(digit_text(n as u8));
    } else {
        push_decimal(out, n / 10);
        out.append(digit_text((n % 10) as u8));
        assert(out@ =~= old(out)@ + decimal_chars(n));
    }
}

/// Hexadecimal rendering of a number in lower case, most significant digit first.
pub open spec fn hex_chars(n: u64) -> Seq<char>
    decreases n,
{
    if n < 16 {
        seq![hex_char_of(n as int)]
    } else {
        hex_chars(n / 16) + seq![hex_char_of((n % 16) as int)]
    }
}

/// Appends the hexadecimal rendering of a number.
pub fn push_hex(out: &mut String, n: u64)
    ensures
        final(out)@ == old(out)@ + hex_chars(n),
    decreases n,
{
    if n < 16 {
        out.append(digit_text(n as u8));
    } else {
        push_hex(out, n / 16);
        out.append(digit_text((n % 16) as u8));
        assert(out@ =~= old(out)@ + hex_chars(n));
    }
}

/// Calls `std::str::from_utf8`: the bytes viewed as a string slice when they are valid UTF-8.
/// The contract claims that `Some` comes exactly for valid UTF-8 and that the slice holds the
/// same bytes.
#[verifier::external_body]
pub(crate) fn str_from_utf8(bytes: &[u8]) -> (r: Option<&str>)
    ensures
        r is Some <==> vstd::utf8::valid_utf8(bytes@),
        r matches Some(s) ==> s.spec_bytes() == bytes@,
{
    std::str::from_utf8(bytes).ok()
}

/// Equality of two texts, decided on their bytes.
pub fn text_equals(a: &str, b: &str) -> (r: bool)
    ensures
        r == (a@ == b@),
{
    proof {
        vstd::utf8::encode_utf8_decode_utf8(a@);
        vstd::utf8::encode_utf8_decode_utf8(b@);
    }
    crate::digest::bytes_equal(a.as_bytes(), b.as_bytes())
}

/// A new string holding the given text.
pub fn text(s: &str) -> (r: String)
    ensures
        r@ == s@,
{
    String::from_str(s)
}

} // verus!
