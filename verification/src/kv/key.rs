//! Keys.

use vstd::prelude::*;

use crate::kv::bound::Bound;
use crate::kv::codec::{encode_bytes, encoded};
use crate::kv::kvpair::KvPair;
use crate::kv::order::{
    bytes_to_vec, lemma_lex_chain, lemma_lex_extension, lemma_lex_first_difference, lex_le, lex_lt,
};

verus! {

/// The key part of a key/value pair.
///
/// Keys are byte strings; they need not be valid UTF-8. They are ordered byte by byte.
#[derive(Debug, Default, PartialEq, Eq, PartialOrd, Ord, Hash)]
pub struct Key(pub Vec<u8>);

impl View for Key {
    type V = Seq<u8>;

    open spec fn view(&self) -> Seq<u8> {
        self.0@
    }
}

impl Clone for Key {
    fn clone(&self) -> (r: Self)
        ensures
            r@ == self@,
    {
        Key(bytes_to_vec(&self.0))
    }
}

/// A pair together with the time that it has left to live.
#[derive(Debug, PartialEq, Eq)]
pub struct KvPairTTL(pub KvPair, pub u64);

impl AsRef<Key> for KvPairTTL {
    fn as_ref(&self) -> (r: &Key)
        ensures
            *r == self.0.key,
    {
        &self.0.key
    }
}

impl From<KvPairTTL> for (KvPair, u64) {
    fn from(value: KvPairTTL) -> (r: Self) {
        (value.0, value.1)
    }
}

impl vstd::std_specs::convert::FromSpecImpl<KvPairTTL> for (KvPair, u64) {
    open spec fn obeys_from_spec() -> bool {
        true
    }

    open spec fn from_spec(value: KvPairTTL) -> (KvPair, u64) {
        (value.0, value.1)
    }
}

/// The byte string read as a number in base 256, plus one, in as many digits; `None` where that
/// takes one digit more.
pub open spec fn increment(s: Seq<u8>) -> Option<Seq<u8>>
    decreases s.len(),
{
    if s.len() == 0 {
        None
    } else if s.last() < 255 {
        Some(s.drop_last().push((s.last() + 1) as u8))
    } else {
        match increment(s.drop_last()) {
            Some(t) => Some(t.push(0)),
            None => None,
        }
    }
}

/// Where the increment exists it has the same length and comes after every byte string that
/// starts with the original one.
pub proof fn lemma_increment_bounds_prefix(s: Seq<u8>, tail: Seq<u8>)
    requires
        increment(s) is Some,
    ensures
        increment(s)->0.len() == s.len(),
        lex_lt(s + tail, increment(s)->0),
    decreases s.len(),
{
    let next = increment(s)->0;
    if s.last() < 255 {
        let at = s.len() - 1;
        assert((s + tail).take(at) =~= next.take(at));
        lemma_lex_first_difference(s + tail, next, at);
    } else {
        let init = s.drop_last();
        let shorter = increment(init)->0;
        lemma_increment_bounds_prefix(init, seq![s.last()] + tail);
        assert(s + tail =~= init + (seq![s.last()] + tail));
        lemma_lex_extension(shorter, seq![0u8]);
        assert(next =~= shorter + seq![0u8]);
        lemma_lex_chain(s + tail, shorter, next);
    }
}

/// The increment fails exactly on byte strings of nothing but `0xff`.
pub proof fn lemma_increment_none(s: Seq<u8>)
    ensures
        increment(s) is None <==> (forall|i: int| 0 <= i < s.len() ==> s[i] == 255),
    decreases s.len(),
{
    if s.len() > 0 {
        let init = s.drop_last();
        lemma_increment_none(init);
        if s.last() == 255 {
            assert forall|i: int| 0 <= i < init.len() implies init[i] == s[i] by {}
            if increment(init) is None {
                assert forall|i: int| 0 <= i < s.len() implies s[i] == 255 by {
                    if i < init.len() {
                        assert(init[i] == 255);
                    }
                }
            } else {
                let i = choose|i: int| 0 <= i < init.len() && init[i] != 255;
                assert(s[i] != 255);
            }
        }
    }
}

/// The smallest key after `a` is `a` with a zero byte at its end: a key comes after `a` exactly if
/// it does not come before that one.
pub proof fn law_next_key_is_the_successor(a: Seq<u8>, b: Seq<u8>)
    ensures
        lex_lt(a, b) <==> lex_le(a.push(0), b),
    decreases a.len(),
{
    if a.len() == 0 {
        assert(a.push(0) =~= seq![0u8]);
        if b.len() > 0 {
            if b[0] == 0 {
                assert(b =~= seq![0u8] + b.skip(1));
                lemma_lex_extension(seq![0u8], b.skip(1));
            }
        }
    } else if b.len() > 0 && a[0] == b[0] {
        law_next_key_is_the_successor(a.skip(1), b.skip(1));
        assert(a.push(0).skip(1) =~= a.skip(1).push(0));
        if a.push(0).skip(1) == b.skip(1) {
            assert(a.push(0) =~= seq![a[0]] + a.push(0).skip(1));
            assert(b =~= seq![b[0]] + b.skip(1));
        }
        if a.push(0) == b {
            assert(a.skip(1).push(0) =~= b.skip(1));
        }
    } else {
        if a.push(0) == b {
            assert(b[0] == a[0]);
        }
    }
}

/// Every key that starts with a prefix lies between the prefix and the prefix after it.
pub proof fn law_next_prefix_key_bounds_the_prefix(prefix: Seq<u8>, key: Seq<u8>)
    requires
        increment(prefix) is Some,
        prefix.is_prefix_of(key),
    ensures
        lex_le(prefix, key),
        lex_lt(key, increment(prefix)->0),
{
    let tail = key.skip(prefix.len() as int);
    assert(key =~= prefix + tail);
    lemma_lex_extension(prefix, tail);
    lemma_increment_bounds_prefix(prefix, tail);
}

/// The key's last byte is zero.
pub open spec fn ends_with_zero(key: Seq<u8>) -> bool {
    key.len() > 0 && key.last() == 0
}

impl Key {
    /// The empty key.
    pub fn empty() -> (r: Key)
        ensures
            r@ == Seq::<u8>::empty(),
    {
        Key(Vec::new())
    }

    /// Return whether the key is empty.
    pub fn is_empty(&self) -> (r: bool)
        ensures
            r == (self@.len() == 0),
    {
        self.0.len() == 0
    }

    /// Return whether the last byte of key is 0.
    pub fn zero_terminated(&self) -> (r: bool)
        ensures
            r == ends_with_zero(self@),
    {
        self.0.len() > 0 && self.0[self.0.len() - 1] == 0
    }

    /// Push a zero to the end of the key.
    ///
    /// Extending a zero makes the new key the smallest key that is greater than than the original one.
    pub fn next_key(self) -> (r: Key)
        ensures
            r@ == self@.push(0),
    {
        let mut bytes = self.0;
        bytes.push(0);
        Key(bytes)
    }

    /// Convert the key to a lower bound. The key is treated as inclusive.
    pub fn into_lower_bound(self) -> (r: Bound<Key>)
        ensures
            r.bytes() == (if ends_with_zero(self@) {
                Bound::Excluded(self@.drop_last())
            } else {
                Bound::Included(self@)
            }),
    {
        if self.zero_terminated() {
            let mut bytes = self.0;
            let ghost before = bytes@;
            let _ = bytes.pop();
            assert(bytes@ =~= before.drop_last());
            Bound::Excluded(Key(bytes))
        } else {
            Bound::Included(self)
        }
    }

    /// Convert the key to an upper bound. The key is treated as exclusive.
    pub fn into_upper_bound(self) -> (r: Bound<Key>)
        ensures
            r.bytes() == (if ends_with_zero(self@) {
                Bound::Included(self@.drop_last())
            } else {
                Bound::Excluded(self@)
            }),
    {
        if self.zero_terminated() {
            let mut bytes = self.0;
            let ghost before = bytes@;
            let _ = bytes.pop();
            assert(bytes@ =~= before.drop_last());
            Bound::Included(Key(bytes))
        } else {
            Bound::Excluded(self)
        }
    }

    /// Return the MVCC-encoded representation of the key.
    #[must_use]
    pub fn to_encoded(&self) -> (r: Key)
        ensures
            r@ == encoded(self@),
    {
        let mut bytes: Vec<u8> = Vec::new();
        encode_bytes(&mut bytes, &self.0);
        assert(Seq::<u8>::empty() + encoded(self@) =~= encoded(self@));
        Key(bytes)
    }

    /// The number of bytes in the key.
    pub fn len(&self) -> (r: usize)
        ensures
            r == self@.len(),
    {
        self.0.len()
    }

    /// Return the next prefix key in byte-order.
    ///
    /// - increment the key as a big-endian byte slice (carry propagation),
    /// - if the key is all `0xff`, return the empty key.
    pub fn next_prefix_key(&self) -> (r: Key)
        ensures
            r@ == (match increment(self@) {
                Some(next) => next,
                None => Seq::<u8>::empty(),
            }),
    {
        let mut buf = bytes_to_vec(&self.0);
        let mut i: usize = buf.len();
        let ghost s = self@;
        assert(s.take(i as int) =~= s);
        while i > 0
            invariant
                i <= buf.len(),
                buf.len() == s.len(),
                s == self@,
                buf@.take(i as int) == s.take(i as int),
                forall|k: int| i <= k < s.len() ==> buf@[k] == 0,
                increment(s) is Some <==> increment(s.take(i as int)) is Some,
                increment(s) is Some ==> increment(s)->0 == increment(s.take(i as int))->0
                    + buf@.skip(i as int),
            decreases i,
        {
            i = i - 1;
            let ghost head = s.take(i + 1);
            assert(head.drop_last() =~= s.take(i as int));
            assert(buf@.take(i + 1)[i as int] == head[i as int]);
            assert(head.last() == buf@[i as int]);
            let ghost before = buf@;
            if buf[i] < 255 {
                buf[i] = buf[i] + 1;
                proof {
                    let next = increment(head)->0;
                    assert(next =~= head.drop_last().push((head.last() + 1) as u8));
                    assert forall|k: int| 0 <= k < i implies buf@[k] == s[k] by {
                        assert(before.take(i + 1)[k] == s.take(i + 1)[k]);
                    }
                    assert(buf@ =~= next + before.skip(i + 1));
                }
                return Key(buf);
            }
            buf[i] = 0;
            proof {
                assert(buf@.take(i as int) =~= s.take(i as int)) by {
                    assert forall|k: int| 0 <= k < i implies buf@[k] == s[k] by {
                        assert(before.take(i + 1)[k] == s.take(i + 1)[k]);
                    }
                }
                if increment(s.take(i as int)) is Some {
                    let shorter = increment(s.take(i as int))->0;
                    assert(shorter.push(0) + before.skip(i + 1) =~= shorter + buf@.skip(i as int));
                }
            }
        }
        Key::empty()
    }
}

impl From<Vec<u8>> for Key {
    fn from(v: Vec<u8>) -> (r: Self) {
        Key(v)
    }
}

impl vstd::std_specs::convert::FromSpecImpl<Vec<u8>> for Key {
    open spec fn obeys_from_spec() -> bool {
        true
    }

    open spec fn from_spec(v: Vec<u8>) -> Key {
        Key(v)
    }
}

impl From<&Vec<u8>> for Key {
    fn from(v: &Vec<u8>) -> (r: Self)
        ensures
            r@ == v@,
    {
        Key(bytes_to_vec(v))
    }
}

impl vstd::std_specs::convert::FromSpecImpl<&Vec<u8>> for Key {
    open spec fn obeys_from_spec() -> bool {
        false
    }

    open spec fn from_spec(v: &Vec<u8>) -> Key {
        Key(*v)
    }
}

impl From<String> for Key {
    fn from(v: String) -> (r: Key)
        ensures
            r@ == vstd::utf8::encode_utf8(v@),
    {
        Key(bytes_to_vec(v.as_str().as_bytes()))
    }
}

impl vstd::std_specs::convert::FromSpecImpl<String> for Key {
    open spec fn obeys_from_spec() -> bool {
        false
    }

    open spec fn from_spec(v: String) -> Key {
        arbitrary()
    }
}

impl From<Key> for Vec<u8> {
    fn from(key: Key) -> (r: Self) {
        key.0
    }
}

impl vstd::std_specs::convert::FromSpecImpl<Key> for Vec<u8> {
    open spec fn obeys_from_spec() -> bool {
        true
    }

    open spec fn from_spec(key: Key) -> Vec<u8> {
        key.0
    }
}

impl<'a> From<&'a Key> for &'a [u8] {
    fn from(key: &'a Key) -> (r: Self)
        ensures
            r@ == key@,
    {
        key.0.as_slice()
    }
}

impl<'a> vstd::std_specs::convert::FromSpecImpl<&'a Key> for &'a [u8] {
    open spec fn obeys_from_spec() -> bool {
        false
    }

    open spec fn from_spec(key: &'a Key) -> &'a [u8] {
        arbitrary()
    }
}

impl AsRef<Key> for Key {
    fn as_ref(&self) -> (r: &Key)
        ensures
            r == self,
    {
        self
    }
}

} // verus!
