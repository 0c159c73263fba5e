//! Building strings a character at a time.

use vstd::prelude::*;

verus! {

/// Appends `c` to `s` (`String::push`).
#[verifier::external_body]
pub fn push_char(s: &mut String, c: char)
    ensures
        final(s)@ == old(s)@.push(c),
{
    s.push(c)
}

/// The character with scalar value `v`, or `None` when `v` is a surrogate or
/// above U+10FFFF (`char::from_u32`).
#[verifier::external_body]
pub fn char_from_u32(v: u32) -> (r: Option<char>)
    ensures
        vstd::utf8::is_scalar(v) ==> r == Some(v as char),
        !vstd::utf8::is_scalar(v) ==> r is None,
{
    char::from_u32(v)
}

/// The ASCII digit for `d` (0 to 15), lower-case beyond 9.
pub open spec fn digit_char(d: int) -> char {
    if d < 10 {
        ((48 + d) as u32) as char
    } else {
        ((87 + d) as u32) as char
    }
}

/// `n` in decimal, without leading zeros.
pub open spec fn decimal(n: nat) -> Seq<char>
    decreases n,
{
    if n < 10 {
        seq![digit_char(n as int)]
    } else {
        decimal(n / 10).push(digit_char((n % 10) as int))
    }
}

/// The ASCII digit for `d`.
fn digit(d: u64) -> (r: char)
    requires
        d < 16,
    ensures
        r == digit_char(d as int),
{
    let v: u32 = if d < 10 {
        48 + d as u32
    } else {
        87 + d as u32
    };
    assert(vstd::utf8::is_scalar(v));
    match char_from_u32(v) {
        Some(c) => c,
        None => ' ',
    }
}

/// Appends `n` in decimal.
pub fn push_decimal(s: &mut String, n: u64)
    ensures
        final(s)@ == old(s)@ + decimal(n as nat),
    decreases n,
{
    if n >= 10 {
        push_decimal(s, n / 10);
    }
    let ghost mid = s@;
    push_char(s, digit(n % 10));
    proof {
        if n >= 10 {
            assert(s@ =~= old(s)@ + decimal(n as nat));
        } else {
            assert(s@ =~= old(s)@ + decimal(n as nat));
        }
    }
}

/// `b` as `{:#04x}` prints it: `0x` and two lower-case hex digits.
pub open spec fn hex_byte(b: u8) -> Seq<char> {
    seq!['0', 'x', digit_char((b / 16) as int), digit_char((b % 16) as int)]
}

/// Appends `b` as `{:#04x}` prints it.
pub fn push_hex_byte(s: &mut String, b: u8)
    ensures
        final(s)@ == old(s)@ + hex_byte(b),
{
    push_char(s, '0');
    push_char(s, 'x');
    push_char(s, digit((b / 16) as u64));
    push_char(s, digit((b % 16) as u64));
    assert(s@ =~= old(s)@ + hex_byte(b));
}

/// `v` as `{:04x}` prints it: four lower-case hex digits, zero padded.
pub open spec fn hex4(v: u16) -> Seq<char> {
    seq![
        digit_char((v / 4096) as int),
        digit_char(((v / 256) % 16) as int),
        digit_char(((v / 16) % 16) as int),
        digit_char((v % 16) as int),
    ]
}

/// Appends `v` as `{:04x}` prints it.
pub fn push_hex4(s: &mut String, v: u16)
    ensures
        final(s)@ == old(s)@ + hex4(v),
{
    push_char(s, digit((v / 4096) as u64));
    push_char(s, digit(((v / 256) % 16) as u64));
    push_char(s, digit(((v / 16) % 16) as u64));
    push_char(s, digit((v % 16) as u64));
    assert(s@ =~= old(s)@ + hex4(v));
}

/// The items of `bs` in decimal, separated by `", "`.
pub open spec fn decimal_items(bs: Seq<u8>) -> Seq<char>
    decreases bs.len(),
{
    if bs.len() == 0 {
        Seq::empty()
    } else if bs.len() == 1 {
        decimal(bs[0] as nat)
    } else {
        decimal_items(bs.drop_last()) + ", "@ + decimal(bs.last() as nat)
    }
}

/// `bs` as `{:?}` prints a list of bytes: `[1, 2, 3]`.
pub open spec fn debug_bytes(bs: Seq<u8>) -> Seq<char> {
    "["@ + decimal_items(bs) + "]"@
}

/// Appends `bs` as `{:?}` prints a list of bytes.
pub fn push_debug_bytes(s: &mut String, bs: &[u8])
    ensures
        final(s)@ == old(s)@ + debug_bytes(bs@),
{
    let ghost start = s@;
    s.append("[");
    let mut i: usize = 0;
    while i < bs.len()
        invariant
            i <= bs@.len(),
            s@ == start + "["@ + decimal_items(bs@.take(i as int)),
        decreases bs@.len() - i,
    {
        let ghost before = s@;
        assert(bs@.take(i + 1).drop_last() =~= bs@.take(i as int));
        if i > 0 {
            s.append(", ");
        }
        push_decimal(s, bs[i] as u64);
        proof {
            reveal_strlit(", ");
            if i == 0 {
                assert(decimal_items(bs@.take(1)) == decimal(bs@[0] as nat));
                assert(s@ =~= start + "["@ + decimal_items(bs@.take(i + 1)));
            } else {
                assert(s@ =~= start + "["@ + decimal_items(bs@.take(i + 1)));
            }
        }
        i = i + 1;
    }
    assert(bs@.take(bs@.len() as int) =~= bs@);
    s.append("]");
    assert(s@ =~= start + debug_bytes(bs@));
}

} // verus!
