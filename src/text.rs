use vstd::prelude::*;

use crate::external::push_char;

verus! {

/// The decimal digits of `n`, most significant first, as ASCII bytes.
pub open spec fn decimal_digits(n: nat) -> Seq<u8>
    decreases n,
{
    if n < 10 {
        seq![(48 + n) as u8]
    } else {
        decimal_digits(n / 10).push((48 + n % 10) as u8)
    }
}

/// Bytes read as characters of the same value.
pub open spec fn chars_of(b: Seq<u8>) -> Seq<char> {
    b.map_values(|x: u8| x as char)
}

/// `n` written in decimal.
pub open spec fn decimal(n: nat) -> Seq<char> {
    chars_of(decimal_digits(n))
}

/// The items of `d` in decimal, separated by `", "`.
pub open spec fn list_items(d: Seq<u8>) -> Seq<char>
    decreases d.len(),
{
    if d.len() == 0 {
        seq![]
    } else if d.len() == 1 {
        decimal(d[0] as nat)
    } else {
        list_items(d.drop_last()) + seq![',', ' '] + decimal(d.last() as nat)
    }
}

/// `d` written as a bracketed list of decimal numbers, e.g. `[1, 2]`.
pub open spec fn byte_list(d: Seq<u8>) -> Seq<char> {
    seq!['['] + list_items(d) + seq![']']
}

pub(crate) fn push_decimal(s: &mut String, n: u32)
    ensures
        final(s)@ == old(s)@ + decimal(n as nat),
    decreases n,
{
    let digit: u8 = (48 + n % 10) as u8;
    if n >= 10 {
        push_decimal(s, n / 10);
    }
    push_char(s, digit as char);
    assert(final(s)@ =~= old(s)@ + decimal(n as nat));
}

pub(crate) fn push_byte_list(s: &mut String, d: &[u8])
    ensures
        final(s)@ == old(s)@ + byte_list(d@),
{
    push_char(s, '[');
    let ghost start = s@;
    let mut i: usize = 0;
    while i < d.len()
        invariant
            0 <= i <= d@.len(),
            s@ == start + list_items(d@.subrange(0, i as int)),
        decreases d@.len() - i,
    {
        let ghost before = s@;
        if i > 0 {
            push_char(s, ',');
            push_char(s, ' ');
        }
        push_decimal(s, d[i] as u32);
        i = i + 1;
        proof {
            let p = d@.subrange(0, i as int);
            assert(p.drop_last() =~= d@.subrange(0, i - 1));
        }
        assert(s@ =~= start + list_items(d@.subrange(0, i as int)));
    }
    push_char(s, ']');
    assert(d@.subrange(0, d@.len() as int) =~= d@);
    assert(s@ =~= old(s)@ + byte_list(d@));
}

} // verus!
