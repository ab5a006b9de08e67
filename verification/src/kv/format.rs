//! What the encoding of a byte string looks like, byte by byte, and how byte strings compare.

use vstd::prelude::*;

use crate::common::errors::{Error, Result};
use crate::kv::codec::{decode_bytes_in_place, decoded, encode_bytes, encoded, zeros, DecodeFailure};
use crate::kv::key::Key;
use crate::kv::order::{bytes_eq, bytes_le, bytes_lt, lex_lt};

verus! {

/// The byte strings agree before a place at which the first ends or holds the smaller byte.
pub open spec fn falls_behind_at(a: Seq<u8>, b: Seq<u8>, at: int) -> bool {
    &&& 0 <= at <= a.len()
    &&& at < b.len()
    &&& forall|j: int| 0 <= j < at ==> a[j] == b[j]
    &&& at == a.len() || a[at] < b[at]
}

proof fn lemma_falls_behind(a: Seq<u8>, b: Seq<u8>) -> (at: int)
    requires
        lex_lt(a, b),
    ensures
        falls_behind_at(a, b, at),
    decreases a.len(),
{
    if a.len() == 0 || a[0] != b[0] {
        0
    } else {
        let at = lemma_falls_behind(a.skip(1), b.skip(1));
        assert forall|j: int| 0 <= j < at + 1 implies a[j] == b[j] by {
            if j > 0 {
                assert(a.skip(1)[j - 1] == b.skip(1)[j - 1]);
            }
        }
        at + 1
    }
}

proof fn lemma_comes_before(a: Seq<u8>, b: Seq<u8>, at: int)
    requires
        falls_behind_at(a, b, at),
    ensures
        lex_lt(a, b),
    decreases a.len(),
{
    if at > 0 {
        assert(a[0] == b[0]);
        assert forall|j: int| 0 <= j < at - 1 implies a.skip(1)[j] == b.skip(1)[j] by {
            assert(a[j + 1] == b[j + 1]);
        }
        lemma_comes_before(a.skip(1), b.skip(1), at - 1);
    }
}

/// Byte strings are ordered as in a dictionary: by the first byte in which they differ, or, where
/// one is the start of the other, by their lengths.
pub proof fn law_bytes_compare_as_in_a_dictionary(a: &[u8], b: &[u8], less: bool, at_most: bool, same: bool)
    requires
        call_ensures(bytes_lt, (a, b), less),
        call_ensures(bytes_le, (a, b), at_most),
        call_ensures(bytes_eq, (a, b), same),
    ensures
        less <==> exists|at: int| falls_behind_at(a@, b@, at),
        at_most <==> less || same,
        same <==> a@ == b@,
{
    if less {
        let at = lemma_falls_behind(a@, b@);
    }
    if exists|at: int| falls_behind_at(a@, b@, at) {
        let at = choose|at: int| falls_behind_at(a@, b@, at);
        lemma_comes_before(a@, b@, at);
    }
}

/// The byte at a place of a group of an encoding.
pub open spec fn in_group(data: Seq<u8>, group: int, at: int) -> u8 {
    data[9 * group + at]
}

/// The data is cut into groups of the key's bytes, in order, the last one filled up with zeros,
/// and each followed by the largest byte less the number of zeros filled in.
pub open spec fn is_cut_into_groups(key: Seq<u8>, data: Seq<u8>) -> bool {
    &&& data.len() == (key.len() / 8 + 1) * 9
    &&& forall|group: int, at: int|
        0 <= group <= key.len() / 8 && 0 <= at < 8 ==> #[trigger] in_group(data, group, at) == (
        if 8 * group + at < key.len() {
            key[8 * group + at]
        } else {
            0u8
        })
    &&& forall|group: int|
        0 <= group <= key.len() / 8 ==> #[trigger] in_group(data, group, 8) == (if group < key.len()
            / 8 {
            255
        } else {
            247 + key.len() % 8
        })
}

pub(crate) proof fn lemma_cut_into_groups(key: Seq<u8>)
    ensures
        is_cut_into_groups(key, encoded(key)),
    decreases key.len(),
{
    let data = encoded(key);
    if key.len() >= 8 {
        let rest = encoded(key.skip(8));
        lemma_cut_into_groups(key.skip(8));
        assert(key.skip(8).len() / 8 == key.len() / 8 - 1);
        assert(key.skip(8).len() % 8 == key.len() % 8);
        assert forall|group: int, at: int|
            0 <= group <= key.len() / 8 && 0 <= at < 8 implies #[trigger] in_group(data, group, at)
            == (if 8 * group + at < key.len() {
            key[8 * group + at]
        } else {
            0u8
        }) by {
            if group > 0 {
                assert(in_group(rest, group - 1, at) == data[9 * group + at]);
            }
        }
        assert forall|group: int| 0 <= group <= key.len() / 8 implies #[trigger] in_group(
            data,
            group,
            8,
        ) == (if group < key.len() / 8 {
            255
        } else {
            247 + key.len() % 8
        }) by {
            if group > 0 {
                assert(in_group(rest, group - 1, 8) == data[9 * group + 8]);
            }
        }
    }
}

/// A key is encoded in groups of eight bytes, each with a marker that counts its filling.
pub proof fn law_a_key_is_encoded_in_groups(key: &Key, r: Key)
    requires
        call_ensures(Key::to_encoded, (key,), r),
    ensures
        is_cut_into_groups(key@, r@),
{
    lemma_cut_into_groups(key@);
}

/// Encoding appends the groups of the key to what is there.
pub proof fn law_an_encoding_is_appended()
    ensures
        forall|out: &mut Vec<u8>, key: &[u8]|
            #![trigger call_ensures(encode_bytes, (out, key), ())]
            call_ensures(encode_bytes, (out, key), ()) ==> {
                &&& (*out)@.is_prefix_of(final(out)@)
                &&& is_cut_into_groups(key@, final(out)@.skip((*out)@.len() as int))
            },
{
    assert forall|out: &mut Vec<u8>, key: &[u8]|
        #![trigger call_ensures(encode_bytes, (out, key), ())]
        call_ensures(encode_bytes, (out, key), ()) implies {
        &&& (*out)@.is_prefix_of(final(out)@)
        &&& is_cut_into_groups(key@, final(out)@.skip((*out)@.len() as int))
    } by {
        lemma_cut_into_groups(key@);
        assert(final(out)@.skip((*out)@.len() as int) =~= encoded(key@));
        assert(final(out)@.subrange(0, (*out)@.len() as int) =~= (*out)@);
    }
}

/// The group is there, and none of its bytes is filling.
pub open spec fn is_full_group(data: Seq<u8>, group: int) -> bool {
    9 * group + 9 <= data.len() && in_group(data, group, 8) == 255
}

/// The group is there, and some of its bytes are filling, all of them zeros.
pub open spec fn is_last_group(data: Seq<u8>, group: int) -> bool {
    &&& 9 * group + 9 <= data.len()
    &&& 247 <= in_group(data, group, 8) < 255
    &&& forall|at: int|
        in_group(data, group, 8) - 247 <= at < 8 ==> #[trigger] in_group(data, group, at) == 0
}

/// So many full groups stand at the start of the data.
pub open spec fn starts_with_full_groups(data: Seq<u8>, groups: int) -> bool {
    groups >= 0 && forall|group: int| 0 <= group < groups ==> #[trigger] is_full_group(data, group)
}

/// The key is what stands in the full groups and, before the filling, in the last one.
pub open spec fn is_read_from(key: Seq<u8>, data: Seq<u8>, groups: int) -> bool {
    &&& starts_with_full_groups(data, groups)
    &&& is_last_group(data, groups)
    &&& key.len() == 8 * groups + in_group(data, groups, 8) - 247
    &&& forall|group: int, at: int|
        0 <= group <= groups && 0 <= at < 8 && 8 * group + at < key.len()
            ==> #[trigger] in_group(data, group, at) == key[8 * group + at]
}

proof fn lemma_full_groups_behind(data: Seq<u8>, groups: int)
    requires
        data.len() >= 9,
        data[8] == 255,
        starts_with_full_groups(data.skip(9), groups),
    ensures
        starts_with_full_groups(data, groups + 1),
{
    assert forall|group: int| 0 <= group < groups + 1 implies #[trigger] is_full_group(
        data,
        group,
    ) by {
        if group > 0 {
            assert(is_full_group(data.skip(9), group - 1));
            assert(data.skip(9)[9 * (group - 1) + 8] == data[9 * group + 8]);
        }
    }
}

proof fn lemma_read(data: Seq<u8>) -> (groups: int)
    ensures
        starts_with_full_groups(data, groups),
        match decoded(data) {
            Ok(key) => is_read_from(key, data, groups),
            Err(DecodeFailure::UnexpectedEof) => data.len() < 9 * groups + 9,
            Err(DecodeFailure::InvalidPadding) => data.len() >= 9 * groups + 9 && !is_full_group(
                data,
                groups,
            ) && !is_last_group(data, groups),
        },
    decreases data.len(),
{
    if data.len() < 9 {
        0
    } else {
        let pad = 255 - data[8];
        if pad == 0 {
            let rest = data.skip(9);
            let behind = lemma_read(rest);
            let groups = behind + 1;
            lemma_full_groups_behind(data, behind);
            assert forall|at: int| 0 <= at < 9 && 9 * behind + 9 <= rest.len() implies
                #[trigger] in_group(data, groups, at) == in_group(rest, behind, at) by {
                assert(rest[9 * behind + at] == data[9 * groups + at]);
            }
            if 9 * behind + 9 <= rest.len() {
                assert(in_group(data, groups, 8) == in_group(rest, behind, 8));
                assert(is_last_group(data, groups) <==> is_last_group(rest, behind)) by {
                    if is_last_group(rest, behind) {
                        assert forall|at: int|
                            in_group(data, groups, 8) - 247 <= at < 8 implies #[trigger] in_group(
                            data,
                            groups,
                            at,
                        ) == 0 by {
                            assert(in_group(rest, behind, at) == 0);
                        }
                    }
                    if is_last_group(data, groups) {
                        assert forall|at: int|
                            in_group(rest, behind, 8) - 247 <= at < 8 implies #[trigger] in_group(
                            rest,
                            behind,
                            at,
                        ) == 0 by {
                            assert(in_group(data, groups, at) == 0);
                        }
                    }
                }
            }
            match decoded(rest) {
                Ok(tail) => {
                    let key = data.take(8) + tail;
                    assert forall|group: int, at: int|
                        0 <= group <= groups && 0 <= at < 8 && 8 * group + at
                            < key.len() implies #[trigger] in_group(data, group, at) == key[8
                        * group + at] by {
                        if group > 0 {
                            assert(in_group(rest, group - 1, at) == tail[8 * (group - 1) + at]);
                            assert(rest[9 * (group - 1) + at] == data[9 * group + at]);
                        }
                    }
                },
                Err(failure) => {},
            }
            groups
        } else {
            if pad <= 8 {
                let filling = data.subrange(8 - pad, 8);
                if filling == zeros(pad as nat) {
                    assert forall|at: int|
                        in_group(data, 0, 8) - 247 <= at < 8 implies #[trigger] in_group(
                        data,
                        0,
                        at,
                    ) == 0 by {
                        assert(filling[at - (8 - pad)] == data[at]);
                        assert(zeros(pad as nat)[at - (8 - pad)] == 0);
                    }
                } else if is_last_group(data, 0) {
                    assert forall|i: int| 0 <= i < pad implies filling[i] == 0 by {
                        assert(in_group(data, 0, 8 - pad + i) == 0);
                    }
                    assert(filling =~= zeros(pad as nat));
                }
            }
            0
        }
    }
}

/// The failure has this text.
pub open spec fn says(failure: Error, text: Seq<char>) -> bool {
    failure matches Error::InternalError { message } && message@ == text
}

/// Bytes are decoded group by group up to the first one that has filling; what stands behind it
/// does not matter. Where the bytes end before, or where there is no such filling as the marker
/// tells of, they stay as they are. Without any bytes there is nothing to decode.
pub proof fn law_bytes_are_decoded_group_by_group()
    ensures
        forall|data: &mut Vec<u8>, r: Result<()>|
            #[trigger] call_ensures(decode_bytes_in_place, (data,), r) ==> {
                let before = (*data)@;
                &&& before.len() == 0 ==> r is Ok && final(data)@ == before
                &&& before.len() > 0 && r is Ok ==> exists|groups: int|
                    is_read_from(final(data)@, before, groups)
                &&& before.len() > 0 && r is Err ==> *final(data) == *data && exists|
                    groups: int,
                |
                    {
                        &&& #[trigger] starts_with_full_groups(before, groups)
                        &&& before.len() < 9 * groups + 9 ==> says(
                            r->Err_0,
                            "unexpected EOF"@,
                        )
                        &&& before.len() >= 9 * groups + 9 ==> !is_full_group(before, groups)
                            && !is_last_group(before, groups) && says(
                            r->Err_0,
                            "invalid key padding"@,
                        )
                    }
            },
{
    assert forall|data: &mut Vec<u8>, r: Result<()>|
        #[trigger] call_ensures(decode_bytes_in_place, (data,), r) implies {
        let before = (*data)@;
        &&& before.len() == 0 ==> r is Ok && final(data)@ == before
        &&& before.len() > 0 && r is Ok ==> exists|groups: int|
            is_read_from(final(data)@, before, groups)
        &&& before.len() > 0 && r is Err ==> *final(data) == *data && exists|groups: int|
            {
                &&& #[trigger] starts_with_full_groups(before, groups)
                &&& before.len() < 9 * groups + 9 ==> says(r->Err_0, "unexpected EOF"@)
                &&& before.len() >= 9 * groups + 9 ==> !is_full_group(before, groups)
                    && !is_last_group(before, groups) && says(
                    r->Err_0,
                    "invalid key padding"@,
                )
            }
    } by {
        let groups = lemma_read((*data)@);
    }
}

} // verus!
