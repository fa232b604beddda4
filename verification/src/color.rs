use vstd::prelude::*;

verus! {

/// The lowercase hexadecimal digit for `d` in `0..16`.
pub open spec fn hex_digit(d: int) -> char {
    if d < 10 {
        (48 + d) as char
    } else {
        (97 + d - 10) as char
    }
}

/// A byte as two lowercase hexadecimal digits.
pub open spec fn hex_byte(b: u8) -> Seq<char> {
    seq![hex_digit((b / 16) as int), hex_digit((b % 16) as int)]
}

/// A colour as `#rrggbb`, each channel as two lowercase hexadecimal digits.
pub open spec fn color_text(red: u8, green: u8, blue: u8) -> Seq<char> {
    seq!['#'] + hex_byte(red) + hex_byte(green) + hex_byte(blue)
}

/// The hexadecimal digits, in order.
pub open spec fn hex_digits() -> Seq<char> {
    seq!['0', '1', '2', '3', '4', '5', '6', '7', '8', '9', 'a', 'b', 'c', 'd', 'e', 'f']
}

/// The digit table is the digits `hex_digit` gives.
proof fn lemma_hex_digits(d: int)
    requires
        0 <= d < 16,
    ensures
        hex_digits()[d] == hex_digit(d),
{
    assert(hex_digits()[0] == hex_digit(0));
    assert(hex_digits()[1] == hex_digit(1));
    assert(hex_digits()[2] == hex_digit(2));
    assert(hex_digits()[3] == hex_digit(3));
    assert(hex_digits()[4] == hex_digit(4));
    assert(hex_digits()[5] == hex_digit(5));
    assert(hex_digits()[6] == hex_digit(6));
    assert(hex_digits()[7] == hex_digit(7));
    assert(hex_digits()[8] == hex_digit(8));
    assert(hex_digits()[9] == hex_digit(9));
    assert(hex_digits()[10] == hex_digit(10));
    assert(hex_digits()[11] == hex_digit(11));
    assert(hex_digits()[12] == hex_digit(12));
    assert(hex_digits()[13] == hex_digit(13));
    assert(hex_digits()[14] == hex_digit(14));
    assert(hex_digits()[15] == hex_digit(15));
}

/// Appends the two hexadecimal digits of `b`.
fn push_hex_byte(out: &mut String, b: u8)
    ensures
        final(out)@ == old(out)@ + hex_byte(b),
{
    let digits = "0123456789abcdef";
    proof {
        reveal_strlit("0123456789abcdef");
        assert(digits@ =~= hex_digits());
        lemma_hex_digits((b / 16) as int);
        lemma_hex_digits((b % 16) as int);
    }
    let high = (b / 16) as usize;
    let low = (b % 16) as usize;
    out.append(digits.substring_char(high, high + 1));
    out.append(digits.substring_char(low, low + 1));
    assert(out@ =~= old(out)@ + hex_byte(b));
}

/// Formats a colour as `#rrggbb` with lowercase hexadecimal digits.
pub fn hex_color(red: u8, green: u8, blue: u8) -> (r: String)
    ensures
        r@ == color_text(red, green, blue),
{
    let mut out = String::from_str("#");
    proof {
        reveal_strlit("#");
    }
    push_hex_byte(&mut out, red);
    push_hex_byte(&mut out, green);
    push_hex_byte(&mut out, blue);
    assert(out@ =~= color_text(red, green, blue));
    out
}

} // verus!
