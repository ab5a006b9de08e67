//! Ranges of keys.

use core::ops::Range;
use vstd::prelude::*;
use vstd::string::*;

use crate::common::text::{hex, push_hex};
use crate::kv::bound::Bound;
use crate::kv::key::{ends_with_zero, law_next_key_is_the_successor, Key};
use crate::kv::order::{lemma_lex_not_lt, lex_le, lex_lt};

verus! {

/// A range of keys, each of whose ends may or may not belong to it.
#[derive(Debug, PartialEq, Eq)]
pub struct BoundRange {
    pub from: Bound<Key>,
    pub to: Bound<Key>,
}

/// A key satisfies the bound, taken as the lower end of a range.
pub open spec fn above(from: Bound<Seq<u8>>, key: Seq<u8>) -> bool {
    match from {
        Bound::Included(start) => lex_le(start, key),
        Bound::Excluded(start) => lex_lt(start, key),
        Bound::Unbounded => true,
    }
}

/// A key satisfies the bound, taken as the upper end of a range.
pub open spec fn below(to: Bound<Seq<u8>>, key: Seq<u8>) -> bool {
    match to {
        Bound::Included(end) => lex_le(key, end),
        Bound::Excluded(end) => lex_lt(key, end),
        Bound::Unbounded => true,
    }
}

/// The text of a bound, with its key in hexadecimal.
pub open spec fn bound_text(bound: Bound<Seq<u8>>) -> Seq<char> {
    match bound {
        Bound::Included(key) => "Included(Key("@ + hex(key) + "))"@,
        Bound::Excluded(key) => "Excluded(Key("@ + hex(key) + "))"@,
        Bound::Unbounded => "Unbounded"@,
    }
}

fn push_bound(out: &mut String, bound: &Bound<Key>)
    ensures
        final(out)@ == old(out)@ + bound_text(bound.bytes()),
{
    let ghost before = out@;
    match bound {
        Bound::Included(key) => {
            out.append("Included(Key(");
            push_hex(out, &key.0);
            out.append("))");
        },
        Bound::Excluded(key) => {
            out.append("Excluded(Key(");
            push_hex(out, &key.0);
            out.append("))");
        },
        Bound::Unbounded => {
            out.append("Unbounded");
        },
    }
    assert(out@ =~= before + bound_text(bound.bytes()));
}

impl BoundRange {
    /// The text of the range, with its keys in hexadecimal.
    pub open spec fn text(self) -> Seq<char> {
        "BoundRange { from: "@ + bound_text(self.from.bytes()) + ", to: "@ + bound_text(
            self.to.bytes(),
        ) + " }"@
    }

    /// The text of the range, with its keys in hexadecimal.
    pub fn to_text(&self) -> (r: String)
        ensures
            r@ == self.text(),
    {
        let mut out = "BoundRange { from: ".to_owned();
        push_bound(&mut out, &self.from);
        out.append(", to: ");
        push_bound(&mut out, &self.to);
        out.append(" }");
        assert(out@ =~= self.text());
        out
    }
}

/// The first key that satisfies a lower bound.
pub open spec fn start_of(from: Bound<Seq<u8>>) -> Seq<u8> {
    match from {
        Bound::Included(start) => start,
        Bound::Excluded(start) => start.push(0),
        Bound::Unbounded => Seq::empty(),
    }
}

/// The first key that does not satisfy an upper bound.
pub open spec fn end_of(to: Bound<Seq<u8>>) -> Option<Seq<u8>> {
    match to {
        Bound::Included(end) => Some(end.push(0)),
        Bound::Excluded(end) => Some(end),
        Bound::Unbounded => None,
    }
}

/// The lower bound that stands for an inclusive start key.
pub open spec fn lower_bound(start: Seq<u8>) -> Bound<Seq<u8>> {
    if ends_with_zero(start) {
        Bound::Excluded(start.drop_last())
    } else {
        Bound::Included(start)
    }
}

/// The upper bound that stands for an exclusive end key.
pub open spec fn upper_bound(end: Seq<u8>) -> Bound<Seq<u8>> {
    if ends_with_zero(end) {
        Bound::Included(end.drop_last())
    } else {
        Bound::Excluded(end)
    }
}

/// A lower bound admits exactly the keys from its start key on, and an upper bound exactly those
/// before its end key.
pub proof fn law_bounds_mean_their_keys(from: Bound<Seq<u8>>, to: Bound<Seq<u8>>, key: Seq<u8>)
    ensures
        above(from, key) <==> lex_le(start_of(from), key),
        below(to, key) <==> (match end_of(to) {
            Some(end) => lex_lt(key, end),
            None => true,
        }),
{
    match from {
        Bound::Included(start) => {},
        Bound::Excluded(start) => {
            law_next_key_is_the_successor(start, key);
        },
        Bound::Unbounded => {
            lemma_lex_not_lt(key, Seq::empty());
        },
    }
    match to {
        Bound::Included(end) => {
            law_next_key_is_the_successor(end, key);
            lemma_lex_not_lt(end, key);
            lemma_lex_not_lt(key, end.push(0));
        },
        Bound::Excluded(end) => {},
        Bound::Unbounded => {},
    }
}

/// Turning keys into bounds and back gives the keys.
pub proof fn law_bounds_give_back_their_keys(start: Seq<u8>, end: Seq<u8>)
    ensures
        start_of(lower_bound(start)) == start,
        end_of(upper_bound(end)) == Some(end),
{
    if ends_with_zero(start) {
        assert(start.drop_last().push(0) =~= start);
    }
    if ends_with_zero(end) {
        assert(end.drop_last().push(0) =~= end);
    }
}

impl BoundRange {
    /// The key lies in the range.
    pub open spec fn has(self, key: Seq<u8>) -> bool {
        above(self.from.bytes(), key) && below(self.to.bytes(), key)
    }

    /// A range between two bounds.
    pub fn new(from: Bound<Key>, to: Bound<Key>) -> (r: BoundRange)
        ensures
            r.from == from,
            r.to == to,
    {
        BoundRange { from, to }
    }

    /// The range of all keys from the given one on.
    pub fn range_from(from: Key) -> (r: BoundRange)
        ensures
            r.from == Bound::Included(from),
            r.to == Bound::<Key>::Unbounded,
    {
        BoundRange { from: Bound::Included(from), to: Bound::Unbounded }
    }

    /// The range from a start key up to, and without, an end key.
    pub fn from_keys(start: Key, end: Key) -> (r: BoundRange)
        ensures
            r.from.bytes() == lower_bound(start@),
            r.to.bytes() == upper_bound(end@),
    {
        BoundRange { from: start.into_lower_bound(), to: end.into_upper_bound() }
    }

    /// The first key of the range, and the first key after it if the range has an end.
    pub fn into_keys(self) -> (r: (Key, Option<Key>))
        ensures
            r.0@ == start_of(self.from.bytes()),
            r.1 is Some <==> end_of(self.to.bytes()) is Some,
            r.1 is Some ==> r.1->0@ == end_of(self.to.bytes())->0,
    {
        let start = match self.from {
            Bound::Included(key) => key,
            Bound::Excluded(key) => key.next_key(),
            Bound::Unbounded => Key::empty(),
        };
        let end = match self.to {
            Bound::Included(key) => Some(key.next_key()),
            Bound::Excluded(key) => Some(key),
            Bound::Unbounded => None,
        };
        (start, end)
    }
}

impl From<Range<Key>> for BoundRange {
    fn from(range: Range<Key>) -> (r: Self) {
        BoundRange { from: Bound::Included(range.start), to: Bound::Excluded(range.end) }
    }
}

impl vstd::std_specs::convert::FromSpecImpl<Range<Key>> for BoundRange {
    open spec fn obeys_from_spec() -> bool {
        true
    }

    open spec fn from_spec(range: Range<Key>) -> BoundRange {
        BoundRange { from: Bound::Included(range.start), to: Bound::Excluded(range.end) }
    }
}

} // verus!
