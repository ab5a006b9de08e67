//! The memcomparable encoding of byte strings.
//!
//! A byte string is cut into groups of eight bytes. Each group is written out, the last one filled
//! up with zeros, and followed by a marker that tells how many of its bytes are filling. The
//! encodings of two byte strings compare as the byte strings do.

use vstd::prelude::*;

use crate::common::errors::{internal_err, Error, Result};
use crate::kv::order::{
    lemma_lex_asymmetric, lemma_lex_chain, lemma_lex_common_prefix, lemma_lex_extends,
    lemma_lex_extension, lemma_lex_first_difference, lemma_lex_irreflexive, lemma_lex_total, lex_le, lex_lt,
};

verus! {

/// The number of bytes in a group.
pub const ENC_GROUP_SIZE: usize = 8;

/// The marker of a group without filling.
pub const ENC_MARKER: u8 = 255;

/// `n` zero bytes.
pub open spec fn zeros(n: nat) -> Seq<u8> {
    Seq::new(n, |i: int| 0u8)
}

/// The encoding of a byte string.
pub open spec fn encoded(key: Seq<u8>) -> Seq<u8>
    decreases key.len(),
{
    if key.len() >= 8 {
        key.take(8).push(255u8) + encoded(key.skip(8))
    } else {
        (key + zeros((8 - key.len()) as nat)).push((255 - (8 - key.len())) as u8)
    }
}

/// An upper bound of the length of an encoding.
pub fn max_encoded_bytes_size(n: usize) -> (r: Option<usize>)
    ensures
        r == (if (n as int / 8 + 1) * 9 <= usize::MAX {
            Some(((n as int / 8 + 1) * 9) as usize)
        } else {
            None
        }),
{
    (n / ENC_GROUP_SIZE + 1).checked_mul(ENC_GROUP_SIZE + 1)
}

/// Append the encoding of `key` to `out`.
pub fn encode_bytes(out: &mut Vec<u8>, key: &[u8])
    ensures
        final(out)@ == old(out)@ + encoded(key@),
{
    let ghost start = out@;
    let mut index: usize = 0;
    assert(key@.skip(0) =~= key@);
    while key.len() - index >= ENC_GROUP_SIZE
        invariant
            index <= key.len(),
            out@ + encoded(key@.skip(index as int)) == start + encoded(key@),
        decreases key.len() - index,
    {
        let ghost rest = key@.skip(index as int);
        let ghost before = out@;
        let mut k: usize = 0;
        while k < ENC_GROUP_SIZE
            invariant
                k <= 8,
                index + 8 <= key.len(),
                out@ == before + key@.skip(index as int).take(k as int),
            decreases 8 - k,
        {
            out.push(key[index + k]);
            assert(key@.skip(index as int).take(k + 1) =~= key@.skip(index as int).take(
                k as int,
            ).push(key@[index + k]));
            k = k + 1;
        }
        out.push(ENC_MARKER);
        proof {
            assert(rest.skip(8) =~= key@.skip(index + 8));
            assert(out@ + encoded(rest.skip(8)) =~= before + (rest.take(8).push(255u8) + encoded(
                rest.skip(8),
            )));
        }
        index = index + ENC_GROUP_SIZE;
    }
    let ghost rest = key@.skip(index as int);
    let ghost before = out@;
    let remain: usize = key.len() - index;
    let mut k: usize = 0;
    while k < remain
        invariant
            k <= remain,
            remain == key.len() - index,
            index <= key.len(),
            out@ == before + key@.skip(index as int).take(k as int),
        decreases remain - k,
    {
        out.push(key[index + k]);
        assert(key@.skip(index as int).take(k + 1) =~= key@.skip(index as int).take(k as int).push(
            key@[index + k],
        ));
        k = k + 1;
    }
    assert(rest.take(remain as int) =~= rest);
    let pad: usize = ENC_GROUP_SIZE - remain;
    let mut p: usize = 0;
    while p < pad
        invariant
            p <= pad,
            out@ == before + rest + zeros(p as nat),
        decreases pad - p,
    {
        out.push(0);
        assert(zeros((p + 1) as nat) =~= zeros(p as nat).push(0u8));
        p = p + 1;
    }
    out.push(ENC_MARKER - pad as u8);
    assert(out@ =~= before + encoded(rest));
}

/// Why bytes are no encoding.
#[derive(Clone, Copy, Debug, PartialEq, Eq, Structural)]
pub enum DecodeFailure {
    /// The bytes end before a group with filling.
    UnexpectedEof,
    /// A marker is out of range, or the filling does not consist of zeros.
    InvalidPadding,
}

impl DecodeFailure {
    /// The text of the failure.
    pub open spec fn text(self) -> Seq<char> {
        match self {
            DecodeFailure::UnexpectedEof => "unexpected EOF"@,
            DecodeFailure::InvalidPadding => "invalid key padding"@,
        }
    }

    fn to_error(self) -> (r: Error)
        ensures
            r.is_internal(self.text()),
    {
        match self {
            DecodeFailure::UnexpectedEof => internal_err("unexpected EOF"),
            DecodeFailure::InvalidPadding => internal_err("invalid key padding"),
        }
    }
}

/// The byte string that an encoding stands for. What follows the last group does not matter.
pub open spec fn decoded(data: Seq<u8>) -> core::result::Result<Seq<u8>, DecodeFailure>
    decreases data.len(),
{
    if data.len() < 9 {
        Err(DecodeFailure::UnexpectedEof)
    } else {
        let pad = 255 - data[8];
        if pad == 0 {
            match decoded(data.skip(9)) {
                Ok(rest) => Ok(data.take(8) + rest),
                Err(failure) => Err(failure),
            }
        } else if pad > 8 || data.subrange(8 - pad, 8) != zeros(pad as nat) {
            Err(DecodeFailure::InvalidPadding)
        } else {
            Ok(data.take(8 - pad))
        }
    }
}

/// What decoding in place makes of bytes, where the empty string stands for itself.
pub open spec fn decoded_or_empty(data: Seq<u8>) -> core::result::Result<
    Seq<u8>,
    DecodeFailure,
> {
    if data.len() == 0 {
        Ok(data)
    } else {
        decoded(data)
    }
}

fn decode_bytes(data: &[u8]) -> (r: core::result::Result<Vec<u8>, DecodeFailure>)
    ensures
        match decoded(data@) {
            Ok(key) => r is Ok && r->Ok_0@ == key,
            Err(failure) => r == Err::<Vec<u8>, DecodeFailure>(failure),
        },
{
    let mut out: Vec<u8> = Vec::new();
    let mut offset: usize = 0;
    assert(data@.skip(0) =~= data@);
    assert(decoded(data@) is Ok ==> decoded(data@)->Ok_0 =~= out@ + decoded(data@)->Ok_0);
    loop
        invariant
            offset <= data.len(),
            match decoded(data@.skip(offset as int)) {
                Ok(rest) => decoded(data@) == Ok::<Seq<u8>, DecodeFailure>(out@ + rest),
                Err(failure) => decoded(data@) == Err::<Seq<u8>, DecodeFailure>(failure),
            },
        decreases data.len() - offset,
    {
        let ghost rest = data@.skip(offset as int);
        if data.len() - offset < ENC_GROUP_SIZE + 1 {
            return Err(DecodeFailure::UnexpectedEof);
        }
        let marker: u8 = data[offset + ENC_GROUP_SIZE];
        assert(marker == rest[8]);
        let pad: usize = (ENC_MARKER - marker) as usize;
        if pad > ENC_GROUP_SIZE {
            return Err(DecodeFailure::InvalidPadding);
        }
        let ghost before = out@;
        let used: usize = ENC_GROUP_SIZE - pad;
        let mut k: usize = 0;
        while k < used
            invariant
                k <= used,
                used <= 8,
                offset + 9 <= data.len(),
                rest == data@.skip(offset as int),
                out@ == before + rest.take(k as int),
            decreases used - k,
        {
            out.push(data[offset + k]);
            assert(rest.take(k + 1) =~= rest.take(k as int).push(rest[k as int]));
            k = k + 1;
        }
        if pad > 0 {
            while k < ENC_GROUP_SIZE
                invariant
                    used <= k <= 8,
                    pad == 8 - used,
                    0 < pad <= 8,
                    offset + 9 <= data.len(),
                    rest == data@.skip(offset as int),
                    255 - rest[8] == pad,
                    forall|j: int| used <= j < k ==> rest[j] == 0,
                    match decoded(rest) {
                        Ok(key) => true,
                        Err(failure) => decoded(data@) == Err::<Seq<u8>, DecodeFailure>(failure),
                    },
                decreases 8 - k,
            {
                if data[offset + k] != 0 {
                    proof {
                        assert(rest.subrange(8 - pad, 8)[k - used] == rest[k as int]);
                        assert(zeros(pad as nat)[k - used] == 0);
                    }
                    return Err(DecodeFailure::InvalidPadding);
                }
                k = k + 1;
            }
            assert(rest.subrange(8 - pad, 8) =~= zeros(pad as nat));
            return Ok(out);
        }
        proof {
            assert(rest.skip(9) =~= data@.skip(offset + 9));
            if decoded(rest.skip(9)) is Ok {
                let tail = decoded(rest.skip(9))->Ok_0;
                assert(before + (rest.take(8) + tail) =~= out@ + tail);
            }
        }
        offset = offset + ENC_GROUP_SIZE + 1;
    }
}

/// Replace an encoding by the byte string that it stands for; the empty string stays as it is.
/// On an error the bytes stay as they are.
pub fn decode_bytes_in_place(data: &mut Vec<u8>) -> (r: Result<()>)
    ensures
        match decoded_or_empty(old(data)@) {
            Ok(key) => r is Ok && final(data)@ == key,
            Err(failure) => r is Err && r->Err_0.is_internal(failure.text()) && *final(data)
                == *old(data),
        },
{
    if data.len() == 0 {
        return Ok(());
    }
    match decode_bytes(data) {
        Ok(key) => {
            *data = key;
            Ok(())
        },
        Err(failure) => Err(failure.to_error()),
    }
}

/// Decoding gives back what was encoded.
pub proof fn law_decode_inverts_encode(key: Seq<u8>)
    ensures
        decoded(encoded(key)) == Ok::<Seq<u8>, DecodeFailure>(key),
        decoded_or_empty(encoded(key)) == Ok::<Seq<u8>, DecodeFailure>(key),
    decreases key.len(),
{
    let data = encoded(key);
    if key.len() >= 8 {
        law_decode_inverts_encode(key.skip(8));
        assert(data.skip(9) =~= encoded(key.skip(8)));
        assert(data.take(8) =~= key.take(8));
        assert(key.take(8) + key.skip(8) =~= key);
    } else {
        let pad = 8 - key.len();
        assert(data[8] == (255 - pad) as u8);
        assert(data.subrange(8 - pad, 8) =~= zeros(pad as nat));
        assert(data.take(8 - pad) =~= key);
    }
}

/// Zeros come first among the byte strings of their length.
proof fn lemma_zeros_first(s: Seq<u8>)
    ensures
        lex_le(zeros(s.len()), s),
    decreases s.len(),
{
    let z = zeros(s.len());
    if s.len() == 0 {
        assert(z =~= s);
    } else {
        assert(z.skip(1) =~= zeros((s.len() - 1) as nat));
        lemma_zeros_first(s.skip(1));
        if s[0] == 0 && z.skip(1) == s.skip(1) {
            assert(z =~= seq![0u8] + z.skip(1));
            assert(s =~= seq![0u8] + s.skip(1));
        }
    }
}

/// `x` filled up with zeros to length `n`.
spec fn padded(x: Seq<u8>, n: nat) -> Seq<u8> {
    x + zeros((n - x.len()) as nat)
}

/// Filling up keeps the order, except that it may make two byte strings equal of which the
/// first is shorter.
proof fn lemma_padded_order(x: Seq<u8>, y: Seq<u8>, n: nat)
    requires
        lex_lt(x, y),
        x.len() <= n,
        y.len() <= n,
    ensures
        lex_lt(padded(x, n), padded(y, n)) || (padded(x, n) == padded(y, n) && x.len() < y.len()),
    decreases n,
{
    if x.len() == 0 {
        assert(padded(x, n) =~= zeros(n));
        assert(padded(y, n).len() == n);
        lemma_zeros_first(padded(y, n));
    } else {
        let px = padded(x, n);
        let py = padded(y, n);
        assert(px[0] == x[0] && py[0] == y[0]);
        if x[0] == y[0] {
            let m = (n - 1) as nat;
            lemma_padded_order(x.skip(1), y.skip(1), m);
            assert(px.skip(1) =~= padded(x.skip(1), m));
            assert(py.skip(1) =~= padded(y.skip(1), m));
            if px.skip(1) == py.skip(1) {
                assert(px =~= seq![x[0]] + px.skip(1));
                assert(py =~= seq![y[0]] + py.skip(1));
            }
        }
    }
}

/// The bytes that go into the first group of an encoding.
spec fn first_group(key: Seq<u8>) -> Seq<u8> {
    if key.len() >= 8 {
        key.take(8)
    } else {
        key
    }
}

/// An encoding starts with its first group, filled up, and the group's marker.
proof fn lemma_encoded_starts_with_group(key: Seq<u8>)
    ensures
        encoded(key).len() >= 9,
        encoded(key).take(8) == padded(first_group(key), 8),
        encoded(key)[8] == (247 + first_group(key).len()) as u8,
        encoded(key) == padded(first_group(key), 8) + encoded(key).skip(8),
{
    let data = encoded(key);
    if key.len() >= 8 {
        assert(data.take(8) =~= padded(first_group(key), 8));
    } else {
        assert(data.take(8) =~= padded(first_group(key), 8));
    }
    assert(data =~= data.take(8) + data.skip(8));
}

proof fn lemma_encode_monotone(a: Seq<u8>, b: Seq<u8>)
    requires
        lex_lt(a, b),
    ensures
        lex_lt(encoded(a), encoded(b)),
    decreases a.len(),
{
    let x = first_group(a);
    let y = first_group(b);
    lemma_encoded_starts_with_group(a);
    lemma_encoded_starts_with_group(b);
    if a.len() >= 8 && b.len() >= 8 && x == y {
        assert(a =~= x + a.skip(8));
        assert(b =~= x + b.skip(8));
        lemma_lex_common_prefix(x, a.skip(8), b.skip(8));
        lemma_encode_monotone(a.skip(8), b.skip(8));
        lemma_lex_common_prefix(x.push(255u8), encoded(a.skip(8)), encoded(b.skip(8)));
    } else {
        // The first groups differ, and in the order of the byte strings.
        let tail = if b.len() >= 8 {
            b.skip(8)
        } else {
            Seq::<u8>::empty()
        };
        assert(b =~= y + tail);
        let head_tail = if a.len() >= 8 {
            a.skip(8)
        } else {
            Seq::<u8>::empty()
        };
        assert(a =~= x + head_tail);
        assert(lex_lt(x, y)) by {
            lemma_lex_extension(x, head_tail);
            lemma_lex_chain(x, a, b);
            if b.len() >= 8 {
                lemma_lex_total(x, y);
                if x == y {
                    assert(x.len() == 8);
                    assert(a.len() >= 8);
                }
                if lex_lt(y, x) {
                    lemma_lex_extends(y, x, tail, head_tail);
                    lemma_lex_asymmetric(a, b);
                }
            } else {
                assert(y =~= b);
            }
        }
        lemma_padded_order(x, y, 8);
        let px = padded(x, 8);
        let py = padded(y, 8);
        if lex_lt(px, py) {
            lemma_lex_extends(px, py, encoded(a).skip(8), encoded(b).skip(8));
        } else {
            lemma_lex_first_difference(encoded(a), encoded(b), 8);
        }
    }
}

/// Encodings compare as the byte strings that they stand for.
pub proof fn law_encode_preserves_order(a: Seq<u8>, b: Seq<u8>)
    ensures
        lex_lt(encoded(a), encoded(b)) <==> lex_lt(a, b),
        encoded(a) == encoded(b) <==> a == b,
{
    law_decode_inverts_encode(a);
    law_decode_inverts_encode(b);
    lemma_lex_total(a, b);
    if lex_lt(a, b) {
        lemma_encode_monotone(a, b);
    } else if lex_lt(b, a) {
        lemma_encode_monotone(b, a);
        lemma_lex_asymmetric(encoded(b), encoded(a));
    } else {
        lemma_lex_irreflexive(encoded(a));
    }
}

/// An encoding is no longer than the bound on its length.
pub proof fn law_encoded_length(key: Seq<u8>)
    ensures
        encoded(key).len() == (key.len() / 8 + 1) * 9,
    decreases key.len(),
{
    if key.len() >= 8 {
        law_encoded_length(key.skip(8));
    }
}

} // verus!
