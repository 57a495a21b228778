//! One line of a hex dump: the offset, then one token per byte.

use vstd::prelude::*;

verus! {

broadcast use vstd::seq_lib::group_seq_properties;

/// How many bytes a dump line shows.
pub const BYTES_PER_LINE: usize = 16;

/// The lower-case hexadecimal digit for `d` (`0 <= d < 16`).
pub open spec fn hex_char(d: int) -> char {
    if d < 10 {
        (('0' as int) + d) as char
    } else {
        (('a' as int) + d - 10) as char
    }
}

/// The lower-case hexadecimal digits of `n`, padded with zeros to at least
/// `width` digits.
pub open spec fn hex_digits(n: nat, width: nat) -> Seq<char>
    decreases n + width,
{
    if n < 16 && width <= 1 {
        seq![hex_char(n as int)]
    } else {
        hex_digits(n / 16, if width > 0 { (width - 1) as nat } else { 0 }) + seq![
            hex_char((n % 16) as int),
        ]
    }
}

/// `format!("{:0w$x}", n, w = width)`: the standard library documents `x`
/// as lower-case hexadecimal and `0w` as padding with zeros to width `w`.
#[verifier::external_body]
fn hex_padded(n: usize, width: usize) -> (s: String)
    ensures
        s@ == hex_digits(n as nat, width as nat),
{
    format!("{:0w$x}", n, w = width)
}

/// How one byte is shown: `. ` for zero, `## ` for `0xff`, otherwise two
/// hex digits and a space.
pub open spec fn byte_token(b: u8) -> Seq<char> {
    if b == 0 {
        ". "@
    } else if b == 0xff {
        "## "@
    } else {
        hex_digits(b as nat, 2) + " "@
    }
}

/// Whether `c` is the lower-case hexadecimal digit for `d`.
pub open spec fn is_hex_digit_for(c: char, d: int) -> bool {
    ||| 0 <= d < 10 && c as int == '0' as int + d
    ||| 10 <= d < 16 && c as int == 'a' as int + (d - 10)
}

/// How a byte is shown: a zero byte as `. `, `0xff` as `## `, and every
/// other byte as its high and low hexadecimal digits (lower case) and a
/// space.
pub proof fn lemma_byte_token(b: u8)
    ensures
        b == 0 ==> byte_token(b) == seq!['.', ' '],
        b == 0xff ==> byte_token(b) == seq!['#', '#', ' '],
        0 < b < 0xff ==> byte_token(b).len() == 3 && is_hex_digit_for(byte_token(b)[0], (b / 16) as int)
            && is_hex_digit_for(byte_token(b)[1], (b % 16) as int) && byte_token(b)[2] == ' ',
{
    reveal_strlit(". ");
    reveal_strlit("## ");
    reveal_strlit(" ");
    if 0 < b < 0xff {
        reveal_with_fuel(hex_digits, 3);
        let d = hex_digits(b as nat, 2);
        if b < 16 {
            assert(hex_digits(b as nat, 1) == seq![hex_char(b as int)]);
            assert(d == seq![hex_char(0)] + seq![hex_char(b as int)]);
        } else {
            assert(hex_digits((b / 16) as nat, 1) == seq![hex_char((b / 16) as int)]);
            assert(d == seq![hex_char((b / 16) as int)] + seq![hex_char((b % 16) as int)]);
        }
    }
}

/// Whether `c` is one of `0`-`9` and `a`-`f`.
pub open spec fn is_lower_hex(c: char) -> bool {
    ('0' <= c && c <= '9') || ('a' <= c && c <= 'f')
}

/// A digit's character is a lower-case hexadecimal digit that stands for it.
proof fn lemma_hex_char_digit(d: int)
    requires
        0 <= d < 16,
    ensures
        is_lower_hex(hex_char(d)),
        ({
            let c = hex_char(d) as int;
            d == if c <= '9' as int { c - '0' as int } else { c - 'a' as int + 10 }
        }),
{
}

/// The number a string of lower-case hexadecimal digits denotes (each
/// character taken as the digit it stands for).
pub open spec fn hex_value(digits: Seq<char>) -> int
    decreases digits.len(),
{
    if digits.len() == 0 {
        0
    } else {
        let c = digits.last() as int;
        let d = if c <= '9' as int { c - '0' as int } else { c - 'a' as int + 10 };
        hex_value(digits.drop_last()) * 16 + d
    }
}

/// The digits of a number are lower-case hexadecimal digits, at least as
/// many as asked for, and read back as the number.
pub proof fn lemma_hex_digits_read_back(n: nat, width: nat)
    ensures
        hex_value(hex_digits(n, width)) == n,
        hex_digits(n, width).len() >= width,
        hex_digits(n, width).len() >= 1,
        forall|i: int|
            0 <= i < hex_digits(n, width).len() ==> is_lower_hex(#[trigger] hex_digits(n, width)[i]),
    decreases n + width,
{
    let s = hex_digits(n, width);
    if n < 16 && width <= 1 {
        assert(s.drop_last() =~= Seq::<char>::empty());
        lemma_hex_char_digit(n as int);
        assert(s.last() == hex_char(n as int));
        assert(hex_value(s.drop_last()) == 0);
        assert(hex_value(s) == n);
        assert(is_lower_hex(s[0]));
    } else {
        let w2: nat = if width > 0 { (width - 1) as nat } else { 0 };
        lemma_hex_digits_read_back(n / 16, w2);
        let r = hex_digits(n / 16, w2);
        assert(s == r + seq![hex_char((n % 16) as int)]);
        assert(s.drop_last() =~= r);
        lemma_hex_char_digit((n % 16) as int);
        assert(s.last() == hex_char((n % 16) as int));
        assert(hex_value(s) == hex_value(r) * 16 + (n % 16) as int);
        assert(hex_value(s) == n);
        assert forall|i: int| 0 <= i < s.len() implies is_lower_hex(#[trigger] s[i]) by {
            if i < r.len() {
                assert(s[i] == r[i]);
            }
        }
    }
}

/// The tokens of a sequence of bytes are the bytes' tokens, one after
/// another: appending a byte appends its token.
pub proof fn lemma_tokens_in_order(bytes: Seq<u8>, b: u8)
    ensures
        byte_tokens(Seq::<u8>::empty()) == Seq::<char>::empty(),
        byte_tokens(bytes.push(b)) == byte_tokens(bytes) + byte_token(b),
{
    assert(bytes.push(b).drop_last() =~= bytes);
}

/// The tokens of all the bytes, one after another.
pub open spec fn byte_tokens(bytes: Seq<u8>) -> Seq<char>
    decreases bytes.len(),
{
    if bytes.len() == 0 {
        Seq::empty()
    } else {
        byte_tokens(bytes.drop_last()) + byte_token(bytes.last())
    }
}

/// A dump line: `[0x` and the offset in at least eight hex digits, `] `,
/// then the byte tokens.
pub open spec fn dump_line(position: nat, bytes: Seq<u8>) -> Seq<char> {
    "[0x"@ + hex_digits(position, 8) + "] "@ + byte_tokens(bytes)
}

/// Renders the dump line for `bytes` read at offset `position`.
pub fn format_line(position: usize, bytes: &[u8]) -> (line: String)
    ensures
        line@ == dump_line(position as nat, bytes@),
{
    let mut line = String::from_str("[0x");
    let offset = hex_padded(position, 8);
    line.append(offset.as_str());
    line.append("] ");
    let ghost prefix = line@;
    let n = bytes.len();
    let mut i: usize = 0;
    while i < n
        invariant
            n == bytes@.len(),
            i <= n,
            line@ == prefix + byte_tokens(bytes@.take(i as int)),
        decreases n - i,
    {
        let b = bytes[i];
        if b == 0x00 {
            line.append(". ");
        } else if b == 0xff {
            line.append("## ");
        } else {
            let digits = hex_padded(b as usize, 2);
            line.append(digits.as_str());
            line.append(" ");
        }
        assert(bytes@.take(i + 1).drop_last() =~= bytes@.take(i as int));
        i += 1;
    }
    assert(bytes@.take(n as int) =~= bytes@);
    line
}

} // verus!
