//! Which keys follow a key, which keys a range holds, and what its text tells.

use core::ops::Range;
use vstd::prelude::*;

use crate::common::text::hex;
use crate::common::text_laws::{lemma_hex, writes_bytes};
use crate::kv::bound::Bound;
use crate::kv::bound_range::{
    above, below, bound_text, law_bounds_give_back_their_keys, law_bounds_mean_their_keys,
    BoundRange,
};
use crate::kv::codec::max_encoded_bytes_size;
use crate::kv::key::{increment, Key};
use crate::kv::order::{lemma_lex_not_lt, lex_le, lex_lt};

verus! {

/// The second is the first with the byte at the place larger by one; all bytes behind it were the
/// largest, and are zero.
pub open spec fn is_counted_up_at(key: Seq<u8>, next: Seq<u8>, at: int) -> bool {
    &&& next.len() == key.len()
    &&& 0 <= at < key.len()
    &&& next[at] == key[at] + 1
    &&& forall|i: int| 0 <= i < at ==> next[i] == key[i]
    &&& forall|i: int| at < i < key.len() ==> #[trigger] key[i] == 255 && next[i] == 0
}

proof fn lemma_counted_up(key: Seq<u8>)
    ensures
        match increment(key) {
            Some(next) => exists|at: int| is_counted_up_at(key, next, at),
            None => forall|i: int| 0 <= i < key.len() ==> key[i] == 255,
        },
    decreases key.len(),
{
    if key.len() > 0 {
        let last = key.len() - 1;
        if key.last() < 255 {
            assert(is_counted_up_at(key, increment(key)->0, last));
        } else {
            let init = key.drop_last();
            lemma_counted_up(init);
            match increment(init) {
                Some(shorter) => {
                    let at = choose|at: int| is_counted_up_at(init, shorter, at);
                    let next = increment(key)->0;
                    assert forall|i: int| at < i < key.len() implies #[trigger] key[i] == 255
                        && next[i] == 0 by {
                        if i < last {
                            assert(init[i] == key[i]);
                        }
                    }
                    assert forall|i: int| 0 <= i < at implies next[i] == key[i] by {
                        assert(shorter[i] == init[i]);
                    }
                    assert(next[at] == shorter[at] && key[at] == init[at]);
                    assert(is_counted_up_at(key, next, at));
                },
                None => {
                    assert forall|i: int| 0 <= i < key.len() implies key[i] == 255 by {
                        if i < last {
                            assert(init[i] == 255);
                        }
                    }
                },
            }
        }
    }
}

/// The next prefix of a key is the key counted up as a number; where all its bytes are the largest
/// there is none, and the empty key stands for that.
pub proof fn law_the_next_prefix_is_counted_up(key: &Key, r: Key)
    requires
        call_ensures(Key::next_prefix_key, (key,), r),
    ensures
        r@.len() > 0 ==> exists|at: int| is_counted_up_at(key@, r@, at),
        r@.len() == 0 <==> forall|i: int| 0 <= i < key@.len() ==> key@[i] == 255,
{
    lemma_counted_up(key@);
    match increment(key@) {
        Some(next) => {
            let at = choose|at: int| is_counted_up_at(key@, next, at);
            assert(key@[at] != 255);
        },
        None => {},
    }
}

/// The next key is the key with a zero at its end, and a key ends with zero if its last byte is.
pub proof fn law_the_next_key_has_one_more_zero(key: Key, next: Key, borrowed: &Key, ends: bool)
    requires
        call_ensures(Key::next_key, (key,), next),
        call_ensures(Key::zero_terminated, (borrowed,), ends),
    ensures
        next@.len() == key@.len() + 1,
        next@[key@.len() as int] == 0,
        forall|i: int| 0 <= i < key@.len() ==> next@[i] == key@[i],
        ends <==> borrowed@.len() > 0 && borrowed@[borrowed@.len() - 1] == 0,
{
}

/// As a lower bound a key stands for itself and all keys behind it, and as an upper bound for all
/// keys before it.
pub proof fn law_a_key_is_a_bound(
    key: Key,
    lower: Bound<Key>,
    upper: Bound<Key>,
    other: Seq<u8>,
)
    requires
        call_ensures(Key::into_lower_bound, (key,), lower),
        call_ensures(Key::into_upper_bound, (key,), upper),
    ensures
        above(lower.bytes(), other) <==> lex_le(key@, other),
        below(upper.bytes(), other) <==> lex_lt(other, key@),
        lower is Excluded <==> key@.len() > 0 && key@[key@.len() - 1] == 0,
        upper is Included <==> key@.len() > 0 && key@[key@.len() - 1] == 0,
        lower !is Unbounded,
        upper !is Unbounded,
{
    law_bounds_mean_their_keys(lower.bytes(), upper.bytes(), other);
    law_bounds_give_back_their_keys(key@, key@);
}

/// A range from one key to another holds the first, and the keys up to the second.
pub proof fn law_a_range_between_keys(
    start: Key,
    end: Key,
    r: BoundRange,
    open: BoundRange,
    key: Seq<u8>,
)
    requires
        call_ensures(BoundRange::from_keys, (start, end), r),
        call_ensures(BoundRange::range_from, (start,), open),
    ensures
        r.has(key) <==> lex_le(start@, key) && lex_lt(key, end@),
        open.has(key) <==> lex_le(start@, key),
{
    law_bounds_mean_their_keys(r.from.bytes(), r.to.bytes(), key);
    law_bounds_give_back_their_keys(start@, end@);
}

/// The keys that a range comes down to hold just what the range holds.
pub proof fn law_a_range_comes_down_to_two_keys(
    range: BoundRange,
    r: (Key, Option<Key>),
    key: Seq<u8>,
)
    requires
        call_ensures(BoundRange::into_keys, (range,), r),
    ensures
        range.has(key) <==> lex_le(r.0@, key) && (r.1 is None || lex_lt(key, r.1->0@)),
        r.1 is None <==> range.to is Unbounded,
{
    law_bounds_mean_their_keys(range.from.bytes(), range.to.bytes(), key);
}

/// A key is in a range just if it keeps to both of its bounds.
pub proof fn law_what_a_range_holds(range: BoundRange, key: Seq<u8>)
    ensures
        range.from matches Bound::Included(from) ==> (range.has(key) ==> !lex_lt(key, from@)),
        range.from matches Bound::Excluded(from) ==> (range.has(key) ==> lex_lt(from@, key)),
        range.to matches Bound::Included(to) ==> (range.has(key) ==> !lex_lt(to@, key)),
        range.to matches Bound::Excluded(to) ==> (range.has(key) ==> lex_lt(key, to@)),
        range.from is Unbounded && range.to is Unbounded ==> range.has(key),
        range.from matches Bound::Included(from) ==> (range.to matches Bound::Included(to) ==> (
        from@ == key && to@ == key ==> range.has(key))),
{
    match range.from {
        Bound::Included(from) => lemma_lex_not_lt(key, from@),
        _ => {},
    }
    match range.to {
        Bound::Included(to) => lemma_lex_not_lt(to@, key),
        _ => {},
    }
}

/// A Rust range holds its start and not its end.
pub proof fn law_a_half_open_range(range: Range<Key>, r: BoundRange, key: Seq<u8>)
    requires
        call_ensures(<BoundRange as From<Range<Key>>>::from, (range,), r),
    ensures
        r.has(key) <==> lex_le(range.start@, key) && lex_lt(key, range.end@),
{
}

/// Nine bytes are enough for each started group of eight, the last one included.
pub proof fn law_how_long_an_encoding_gets(n: usize, r: Option<usize>)
    requires
        call_ensures(max_encoded_bytes_size, (n,), r),
    ensures
        r is Some ==> r->0 >= n + 1 && r->0 % 9 == 0 && 8 * (r->0 as int / 9) > n && 8 * (
        r->0 as int / 9) <= n + 8,
        r is None <==> (n as int / 8 + 1) * 9 > usize::MAX,
{
    if r is Some {
        let groups = n as int / 8 + 1;
        assert(r->0 == groups * 9);
        vstd::arithmetic::div_mod::lemma_fundamental_div_mod_converse(r->0 as int, 9, groups, 0);
    }
}

/// The text says of what kind the bound is, and gives its key in digits from which it can be read
/// back.
pub open spec fn tells_bound(text: Seq<char>, bound: Bound<Key>) -> bool {
    match bound {
        Bound::Included(key) => exists|digits: Seq<char>| #[trigger]
            writes_bytes(digits, key@) && text == "Included(Key("@ + digits + "))"@,
        Bound::Excluded(key) => exists|digits: Seq<char>| #[trigger]
            writes_bytes(digits, key@) && text == "Excluded(Key("@ + digits + "))"@,
        Bound::Unbounded => text == "Unbounded"@,
    }
}

proof fn lemma_tells_bound(bound: Bound<Key>)
    ensures
        tells_bound(bound_text(bound.bytes()), bound),
{
    match bound {
        Bound::Included(key) => {
            lemma_hex(key@);
            assert(writes_bytes(hex(key@), key@));
        },
        Bound::Excluded(key) => {
            lemma_hex(key@);
            assert(writes_bytes(hex(key@), key@));
        },
        Bound::Unbounded => {},
    }
}

/// The text of a range tells of both of its bounds, the lower one first.
pub proof fn law_the_text_of_a_range_tells_its_bounds(range: &BoundRange, r: String) -> (bounds: (
    Seq<char>,
    Seq<char>,
))
    requires
        call_ensures(BoundRange::to_text, (range,), r),
    ensures
        tells_bound(bounds.0, range.from),
        tells_bound(bounds.1, range.to),
        r@ == "BoundRange { from: "@ + bounds.0 + ", to: "@ + bounds.1 + " }"@,
{
    lemma_tells_bound(range.from);
    lemma_tells_bound(range.to);
    (bound_text(range.from.bytes()), bound_text(range.to.bytes()))
}

} // verus!
