//! Numbers as text.

use vstd::prelude::*;
use vstd::string::*;

verus! {

/// The digit that stands for `d`, in lower case beyond 9.
pub open spec fn digit_char(d: int) -> char {
    if d < 10 {
        ('0' as u8 + d) as u8 as char
    } else {
        ('a' as u8 + (d - 10)) as u8 as char
    }
}

/// `n` in the base `base`, without leading zeros.
pub open spec fn in_base(n: int, base: int) -> Seq<char>
    decreases n,
{
    if n < base || base < 2 {
        seq![digit_char(n)]
    } else {
        proof {
            vstd::arithmetic::div_mod::lemma_div_decreases(n, base);
            vstd::arithmetic::div_mod::lemma_div_pos_is_pos(n, base);
        }
        in_base(n / base, base).push(digit_char(n % base))
    }
}

/// `n` in base 10.
pub open spec fn decimal(n: int) -> Seq<char> {
    in_base(n, 10)
}

/// `n` in base 16, in lower case.
pub open spec fn lower_hex(n: int) -> Seq<char> {
    in_base(n, 16)
}

/// `count` spaces.
pub open spec fn spaces(count: int) -> Seq<char> {
    Seq::new(
        if count > 0 {
            count as nat
        } else {
            0
        },
        |i: int| ' ',
    )
}

/// `s` with spaces before it that make it `width` characters long, if it
/// is shorter.
pub open spec fn right_aligned(s: Seq<char>, width: int) -> Seq<char> {
    spaces(width - s.len()) + s
}

/// The digit that stands for `d`.
fn to_digit(d: u8) -> (c: char)
    requires
        d < 16,
    ensures
        c == digit_char(d as int),
{
    if d < 10 {
        (48u8 + d) as char
    } else {
        (87u8 + d) as char
    }
}

/// `n` in the base `base`, without leading zeros.
pub fn to_base(n: u128, base: u128) -> (s: String)
    requires
        2 <= base <= 16,
    ensures
        s@ == in_base(n as int, base as int),
{
    let mut digits: Vec<char> = Vec::new();
    let mut rest: u128 = n;
    while rest >= base
        invariant
            2 <= base <= 16,
            in_base(n as int, base as int) == in_base(rest as int, base as int) + Seq::new(
                digits@.len(),
                |i: int| digits@[digits@.len() - 1 - i],
            ),
        decreases rest,
    {
        let ghost before = digits@;
        digits.push(to_digit((rest % base) as u8));
        proof {
            let d = digit_char((rest % base) as int);
            let tail = Seq::new(before.len(), |i: int| before[before.len() - 1 - i]);
            assert(in_base(rest as int, base as int) == in_base(rest as int / base as int, base as int).push(d));
            assert(Seq::new(digits@.len(), |i: int| digits@[digits@.len() - 1 - i]) =~= seq![d] + tail);
            assert(in_base(rest as int / base as int, base as int) + (seq![d] + tail) =~= in_base(
                rest as int / base as int,
                base as int,
            ).push(d) + tail);
        }
        rest = rest / base;
    }
    let mut s = String::new();
    s.push(to_digit(rest as u8));
    let mut i: usize = digits.len();
    while i > 0
        invariant
            i <= digits@.len(),
            rest < base <= 16,
            s@ == seq![digit_char(rest as int)] + Seq::new(
                (digits@.len() - i) as nat,
                |j: int| digits@[digits@.len() - 1 - j],
            ),
        decreases i,
    {
        i -= 1;
        s.push(digits[i]);
        assert(s@ =~= seq![digit_char(rest as int)] + Seq::new(
            (digits@.len() - i) as nat,
            |j: int| digits@[digits@.len() - 1 - j],
        ));
    }
    assert(s@ =~= in_base(rest as int, base as int) + Seq::new(
        digits@.len(),
        |i: int| digits@[digits@.len() - 1 - i],
    ));
    s
}

/// `n` in base 16, in lower case and without leading zeros.
pub fn to_lower_hex(n: u64) -> (s: String)
    ensures
        s@ == lower_hex(n as int),
{
    to_base(n as u128, 16)
}

/// `n` in base 10.
pub fn to_decimal(n: u128) -> (s: String)
    ensures
        s@ == decimal(n as int),
{
    to_base(n, 10)
}

/// `n` in base 10, with spaces before it that make it `width` characters
/// long, if it is shorter.
pub fn to_decimal_padded(n: u128, width: usize) -> (s: String)
    ensures
        s@ == right_aligned(decimal(n as int), width as int),
{
    let digits = to_decimal(n);
    let len = digits.as_str().unicode_len();
    let mut s = String::new();
    let mut i: usize = len;
    while i < width
        invariant
            len <= i,
            i <= width || i == len,
            s@ == spaces(i - len),
        decreases width - i,
    {
        s.push(' ');
        i += 1;
        assert(s@ =~= spaces(i - len));
    }
    assert(s@ =~= spaces(width - len));
    s.append(digits.as_str());
    s
}

} // verus!
