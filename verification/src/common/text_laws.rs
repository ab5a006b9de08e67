//! That numbers and byte strings can be read back from their text.

use vstd::prelude::*;

use crate::common::text::{
    byte_list, byte_lists, decimal, decimals, digit_char, hex, hex_char, push_byte_list,
    push_byte_lists, push_decimal, push_hex, with_decimal,
};

verus! {

/// The value of a digit in base sixteen, as it is written in capitals.
pub open spec fn value_of(digit: char) -> int {
    let code = digit as int;
    if 48 <= code <= 57 {
        code - 48
    } else {
        code - 55
    }
}

/// The character is a digit.
pub open spec fn is_digit(c: char) -> bool {
    48 <= c as int <= 57
}

/// The number that digits stand for.
pub open spec fn number_of(digits: Seq<char>) -> int
    decreases digits.len(),
{
    if digits.len() == 0 {
        0
    } else {
        10 * number_of(digits.drop_last()) + value_of(digits.last())
    }
}

/// The text is that of the number: digits that stand for it, without leading zeros.
pub open spec fn writes(digits: Seq<char>, n: int) -> bool {
    &&& digits.len() > 0
    &&& forall|i: int| 0 <= i < digits.len() ==> is_digit(#[trigger] digits[i])
    &&& number_of(digits) == n
    &&& digits.len() > 1 ==> digits[0] as int != 48
}

proof fn lemma_decimal(n: nat)
    ensures
        writes(decimal(n), n as int),
        n > 0 ==> decimal(n)[0] as int != 48,
    decreases n,
{
    reveal_with_fuel(number_of, 2);
    let digits = decimal(n);
    if n < 10 {
        assert(digits.drop_last() =~= Seq::<char>::empty());
        assert(digits.last() == digit_char(n));
    } else {
        lemma_decimal(n / 10);
        assert(digits.drop_last() =~= decimal(n / 10));
        assert(digits.last() == digit_char(n % 10));
        assert forall|i: int| 0 <= i < digits.len() implies is_digit(#[trigger] digits[i]) by {
            if i < digits.len() - 1 {
                assert(digits[i] == decimal(n / 10)[i]);
            }
        }
        assert(digits[0] == decimal(n / 10)[0]);
    }
}

/// A number is written in digits, so that it can be read back, and without leading zeros.
pub proof fn law_a_number_can_be_read_back(n: u64, text: &str, r: String)
    requires
        call_ensures(with_decimal, (text, n), r),
    ensures
        text@.is_prefix_of(r@),
        writes(r@.skip(text@.len() as int), n as int),
        forall|out: &mut String| #[trigger]
            call_ensures(push_decimal, (out, n), ()) ==> (*out)@.is_prefix_of(final(out)@)
                && writes(final(out)@.skip((*out)@.len() as int), n as int),
{
    lemma_decimal(n as nat);
    assert(r@.skip(text@.len() as int) =~= decimal(n as nat));
    assert(r@.subrange(0, text@.len() as int) =~= text@);
    assert forall|out: &mut String| #[trigger]
        call_ensures(push_decimal, (out, n), ()) implies (*out)@.is_prefix_of(final(out)@) && writes(
        final(out)@.skip((*out)@.len() as int),
        n as int,
    ) by {
        assert(final(out)@.skip((*out)@.len() as int) =~= decimal(n as nat));
        assert(final(out)@.subrange(0, (*out)@.len() as int) =~= (*out)@);
    }
}

/// Two digits for each byte, of which the first counts the sixteens.
pub open spec fn writes_bytes(digits: Seq<char>, bytes: Seq<u8>) -> bool {
    &&& digits.len() == 2 * bytes.len()
    &&& forall|i: int|
        0 <= i < bytes.len() ==> {
            let (high, low) = (digits[2 * i], digits[2 * i + 1]);
            &&& #[trigger] bytes[i] == 16 * value_of(high) + value_of(low)
            &&& is_digit(high) || 65 <= high as int <= 70
            &&& is_digit(low) || 65 <= low as int <= 70
        }
}

proof fn lemma_hex_digit(d: nat)
    requires
        d < 16,
    ensures
        value_of(hex_char(d)) == d,
        is_digit(hex_char(d)) || 65 <= hex_char(d) as int <= 70,
{
}

pub(crate) proof fn lemma_hex(bytes: Seq<u8>)
    ensures
        writes_bytes(hex(bytes), bytes),
    decreases bytes.len(),
{
    if bytes.len() > 0 {
        let init = bytes.drop_last();
        let digits = hex(bytes);
        let last = bytes.last() as nat;
        lemma_hex(init);
        lemma_hex_digit(last / 16);
        lemma_hex_digit(last % 16);
        assert forall|i: int| 0 <= i < bytes.len() implies {
            let (high, low) = (digits[2 * i], digits[2 * i + 1]);
            &&& #[trigger] bytes[i] == 16 * value_of(high) + value_of(low)
            &&& is_digit(high) || 65 <= high as int <= 70
            &&& is_digit(low) || 65 <= low as int <= 70
        } by {
            if i < init.len() {
                assert(init[i] == bytes[i]);
                assert(digits[2 * i] == hex(init)[2 * i]);
                assert(digits[2 * i + 1] == hex(init)[2 * i + 1]);
            }
        }
    }
}

/// Bytes are written in two digits each, in capitals, so that they can be read back.
pub proof fn law_bytes_can_be_read_back(bytes: &Vec<u8>)
    ensures
        forall|out: &mut String| #[trigger]
            call_ensures(push_hex, (out, bytes), ()) ==> (*out)@.is_prefix_of(final(out)@)
                && writes_bytes(final(out)@.skip((*out)@.len() as int), bytes@),
{
    lemma_hex(bytes@);
    assert forall|out: &mut String| #[trigger]
        call_ensures(push_hex, (out, bytes), ()) implies (*out)@.is_prefix_of(final(out)@)
        && writes_bytes(final(out)@.skip((*out)@.len() as int), bytes@) by {
        assert(final(out)@.skip((*out)@.len() as int) =~= hex(bytes@));
        assert(final(out)@.subrange(0, (*out)@.len() as int) =~= (*out)@);
    }
}

/// A list of bytes stands in square brackets. Each byte is written as a number, behind a comma and
/// a blank if it is not the first.
pub proof fn law_bytes_are_listed_one_by_one(bytes: &Vec<u8>, more: &Vec<u8>)
    requires
        more@.len() > 0,
        bytes@ == more@.drop_last(),
    ensures
        forall|out: &mut String, long: &mut String|
            #![trigger call_ensures(push_byte_list, (out, bytes), ()), call_ensures(push_byte_list, (long, more), ())]
            call_ensures(push_byte_list, (out, bytes), ()) && call_ensures(
                push_byte_list,
                (long, more),
                (),
            ) ==> exists|listed: Seq<char>, digits: Seq<char>|
                {
                    &&& #[trigger] writes(digits, more@.last() as int)
                    &&& final(out)@ == #[trigger] ((*out)@ + seq!['['] + listed) + seq![']']
                    &&& bytes@.len() == 0 ==> listed.len() == 0
                    &&& final(long)@ == (*long)@ + seq!['['] + (if bytes@.len() == 0 {
                        digits
                    } else {
                        listed + seq![',', ' '] + digits
                    }) + seq![']']
                },
{
    reveal_strlit("[");
    reveal_strlit("]");
    reveal_strlit(", ");
    assert("["@ =~= seq!['[']);
    assert("]"@ =~= seq![']']);
    assert(", "@ =~= seq![',', ' ']);
    lemma_decimal(more@.last() as nat);
    assert forall|out: &mut String, long: &mut String|
        #![trigger call_ensures(push_byte_list, (out, bytes), ()), call_ensures(push_byte_list, (long, more), ())]
        call_ensures(push_byte_list, (out, bytes), ()) && call_ensures(
            push_byte_list,
            (long, more),
            (),
        ) implies exists|listed: Seq<char>, digits: Seq<char>|
        {
            &&& #[trigger] writes(digits, more@.last() as int)
            &&& final(out)@ == #[trigger] ((*out)@ + seq!['['] + listed) + seq![']']
            &&& bytes@.len() == 0 ==> listed.len() == 0
            &&& final(long)@ == (*long)@ + seq!['['] + (if bytes@.len() == 0 {
                digits
            } else {
                listed + seq![',', ' '] + digits
            }) + seq![']']
        } by {
        let listed = decimals(bytes@);
        let digits = decimal(more@.last() as nat);
        assert(final(out)@ =~= ((*out)@ + seq!['['] + listed) + seq![']']);
        assert(decimals(more@) == if bytes@.len() == 0 {
            digits
        } else {
            listed + seq![',', ' '] + digits
        });
        assert(final(long)@ =~= (*long)@ + seq!['['] + decimals(more@) + seq![']']);
        assert(writes(digits, more@.last() as int));
    }
}

/// Of several lists each is written as it is alone, behind a comma and a blank if it is not the
/// first.
pub proof fn law_lists_are_written_one_by_one(
    lists: &Vec<Vec<u8>>,
    more: &Vec<Vec<u8>>,
    last: &Vec<u8>,
)
    requires
        more@.len() > 0,
        lists@ == more@.drop_last(),
        *last == more@.last(),
    ensures
        forall|out: &mut String, next: &mut String, long: &mut String|
            #![trigger call_ensures(push_byte_lists, (out, lists), ()), call_ensures(push_byte_list, (next, last), ()), call_ensures(push_byte_lists, (long, more), ())]
            call_ensures(push_byte_lists, (out, lists), ()) && call_ensures(
                push_byte_list,
                (next, last),
                (),
            ) && call_ensures(push_byte_lists, (long, more), ()) && (*long)@ == (*out)@ && (*next)@
                == (if lists@.len() == 0 {
                final(out)@
            } else {
                final(out)@ + seq![',', ' ']
            }) ==> final(long)@ == final(next)@ && (lists@.len() == 0 ==> final(out)@ == (*out)@),
{
    reveal_strlit(", ");
    assert(", "@ =~= seq![',', ' ']);
    assert forall|out: &mut String, next: &mut String, long: &mut String|
        #![trigger call_ensures(push_byte_lists, (out, lists), ()), call_ensures(push_byte_list, (next, last), ()), call_ensures(push_byte_lists, (long, more), ())]
        call_ensures(push_byte_lists, (out, lists), ()) && call_ensures(
            push_byte_list,
            (next, last),
            (),
        ) && call_ensures(push_byte_lists, (long, more), ()) && (*long)@ == (*out)@ && (*next)@ == (
        if lists@.len() == 0 {
            final(out)@
        } else {
            final(out)@ + seq![',', ' ']
        }) implies final(long)@ == final(next)@ && (lists@.len() == 0 ==> final(out)@ == (*out)@) by {
        assert(final(out)@ == (*out)@ + byte_lists(lists@));
        assert(final(next)@ == (*next)@ + byte_list(last@));
        if lists@.len() == 0 {
            assert(final(out)@ =~= (*out)@);
        } else {
            assert(final(long)@ =~= final(next)@);
        }
    }
}

} // verus!
