//! Numbers and byte strings written out.

use vstd::prelude::*;
use vstd::string::*;

verus! {

/// The character of a decimal digit.
pub open spec fn digit_char(d: nat) -> char {
    if d == 0 {
        '0'
    } else if d == 1 {
        '1'
    } else if d == 2 {
        '2'
    } else if d == 3 {
        '3'
    } else if d == 4 {
        '4'
    } else if d == 5 {
        '5'
    } else if d == 6 {
        '6'
    } else if d == 7 {
        '7'
    } else if d == 8 {
        '8'
    } else {
        '9'
    }
}

/// A number in decimal, without leading zeros.
pub open spec fn decimal(n: nat) -> Seq<char>
    decreases n,
{
    if n < 10 {
        seq![digit_char(n)]
    } else {
        decimal(n / 10).push(digit_char(n % 10))
    }
}

fn push_digit(out: &mut String, d: u64)
    requires
        d < 10,
    ensures
        final(out)@ == old(out)@.push(digit_char(d as nat)),
{
    let s = match d {
        0 => "0",
        1 => "1",
        2 => "2",
        3 => "3",
        4 => "4",
        5 => "5",
        6 => "6",
        7 => "7",
        8 => "8",
        _ => "9",
    };
    proof {
        reveal_strlit("0");
        reveal_strlit("1");
        reveal_strlit("2");
        reveal_strlit("3");
        reveal_strlit("4");
        reveal_strlit("5");
        reveal_strlit("6");
        reveal_strlit("7");
        reveal_strlit("8");
        reveal_strlit("9");
    }
    let ghost before = out@;
    assert(s@ =~= seq![digit_char(d as nat)]);
    out.append(s);
    assert(before + seq![digit_char(d as nat)] =~= before.push(digit_char(d as nat)));
}

/// Append a number in decimal.
pub fn push_decimal(out: &mut String, n: u64)
    ensures
        final(out)@ == old(out)@ + decimal(n as nat),
    decreases n,
{
    let ghost before = out@;
    if n >= 10 {
        push_decimal(out, n / 10);
    } else {
        assert(before + Seq::<char>::empty() =~= before);
    }
    push_digit(out, n % 10);
    assert(out@ =~= before + decimal(n as nat));
}

/// A text with a number in decimal at its end.
pub fn with_decimal(text: &str, n: u64) -> (r: String)
    ensures
        r@ == text@ + decimal(n as nat),
{
    let mut out = text.to_owned();
    push_decimal(&mut out, n);
    out
}

/// Bytes in decimal, with a comma and a blank between two of them.
pub open spec fn decimals(bytes: Seq<u8>) -> Seq<char>
    decreases bytes.len(),
{
    if bytes.len() == 0 {
        Seq::empty()
    } else if bytes.len() == 1 {
        decimal(bytes[0] as nat)
    } else {
        decimals(bytes.drop_last()) + ", "@ + decimal(bytes.last() as nat)
    }
}

/// A list of bytes in decimal.
pub open spec fn byte_list(bytes: Seq<u8>) -> Seq<char> {
    "["@ + decimals(bytes) + "]"@
}

/// Append a list of bytes in decimal.
pub fn push_byte_list(out: &mut String, bytes: &Vec<u8>)
    ensures
        final(out)@ == old(out)@ + byte_list(bytes@),
{
    let ghost before = out@;
    out.append("[");
    let mut i: usize = 0;
    assert(out@ =~= before + "["@ + decimals(bytes@.take(0)));
    while i < bytes.len()
        invariant
            i <= bytes.len(),
            out@ == before + "["@ + decimals(bytes@.take(i as int)),
        decreases bytes.len() - i,
    {
        let ghost so_far = decimals(bytes@.take(i as int));
        let ghost more = bytes@.take(i + 1);
        assert(more.drop_last() =~= bytes@.take(i as int));
        if i > 0 {
            out.append(", ");
        }
        push_decimal(out, bytes[i] as u64);
        assert(out@ =~= before + "["@ + decimals(more));
        i = i + 1;
    }
    assert(bytes@.take(i as int) =~= bytes@);
    out.append("]");
    assert(out@ =~= before + byte_list(bytes@));
}

/// Lists of bytes, with a comma and a blank between two of them.
pub open spec fn byte_lists(lists: Seq<Vec<u8>>) -> Seq<char>
    decreases lists.len(),
{
    if lists.len() == 0 {
        Seq::empty()
    } else if lists.len() == 1 {
        byte_list(lists[0]@)
    } else {
        byte_lists(lists.drop_last()) + ", "@ + byte_list(lists.last()@)
    }
}

/// Append lists of bytes in decimal, with a comma and a blank between two of them.
pub fn push_byte_lists(out: &mut String, lists: &Vec<Vec<u8>>)
    ensures
        final(out)@ == old(out)@ + byte_lists(lists@),
{
    let ghost before = out@;
    let mut i: usize = 0;
    assert(out@ =~= before + byte_lists(lists@.take(0)));
    while i < lists.len()
        invariant
            i <= lists.len(),
            out@ == before + byte_lists(lists@.take(i as int)),
        decreases lists.len() - i,
    {
        let ghost more = lists@.take(i + 1);
        assert(more.drop_last() =~= lists@.take(i as int));
        if i > 0 {
            out.append(", ");
        }
        push_byte_list(out, &lists[i]);
        assert(out@ =~= before + byte_lists(more));
        i = i + 1;
    }
    assert(lists@.take(i as int) =~= lists@);
}

/// The character of a hexadecimal digit.
pub open spec fn hex_char(d: nat) -> char {
    if d < 10 {
        digit_char(d)
    } else if d == 10 {
        'A'
    } else if d == 11 {
        'B'
    } else if d == 12 {
        'C'
    } else if d == 13 {
        'D'
    } else if d == 14 {
        'E'
    } else {
        'F'
    }
}

/// Bytes in hexadecimal, two digits each.
pub open spec fn hex(bytes: Seq<u8>) -> Seq<char>
    decreases bytes.len(),
{
    if bytes.len() == 0 {
        Seq::empty()
    } else {
        hex(bytes.drop_last()).push(hex_char(bytes.last() as nat / 16)).push(
            hex_char(bytes.last() as nat % 16),
        )
    }
}

fn push_hex_digit(out: &mut String, d: u8)
    requires
        d < 16,
    ensures
        final(out)@ == old(out)@.push(hex_char(d as nat)),
{
    if d < 10 {
        push_digit(out, d as u64);
        return;
    }
    let s = match d {
        10 => "A",
        11 => "B",
        12 => "C",
        13 => "D",
        14 => "E",
        _ => "F",
    };
    proof {
        reveal_strlit("A");
        reveal_strlit("B");
        reveal_strlit("C");
        reveal_strlit("D");
        reveal_strlit("E");
        reveal_strlit("F");
    }
    let ghost before = out@;
    assert(s@ =~= seq![hex_char(d as nat)]);
    out.append(s);
    assert(before + seq![hex_char(d as nat)] =~= before.push(hex_char(d as nat)));
}

/// Append bytes in hexadecimal.
pub fn push_hex(out: &mut String, bytes: &Vec<u8>)
    ensures
        final(out)@ == old(out)@ + hex(bytes@),
{
    let ghost before = out@;
    let mut i: usize = 0;
    assert(out@ =~= before + hex(bytes@.take(0)));
    while i < bytes.len()
        invariant
            i <= bytes.len(),
            out@ == before + hex(bytes@.take(i as int)),
        decreases bytes.len() - i,
    {
        let ghost more = bytes@.take(i + 1);
        assert(more.drop_last() =~= bytes@.take(i as int));
        push_hex_digit(out, bytes[i] / 16);
        push_hex_digit(out, bytes[i] % 16);
        assert(out@ =~= before + hex(more));
        i = i + 1;
    }
    assert(bytes@.take(i as int) =~= bytes@);
}

} // verus!
