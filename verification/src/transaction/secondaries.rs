//! What follows from what the secondary locks of a transaction tell.

use vstd::prelude::*;

use crate::common::errors::Result;
use crate::common::text::decimal;
use crate::timestamp::law_versions_and_timestamps_agree;
use crate::transaction::status::{
    all_async, all_secondaries_verdict, check_all_secondaries, law_the_commit_is_not_too_early,
    max_min_commit_ts,
    region_verdict, secondaries_verdict, SecondariesSoFar, SecondariesVerdict, SecondaryLocks,
    SecondaryLocksStatus,
};
use crate::proto::kvrpcpb::LockInfo;

verus! {

/// Some lock of the region is gone.
pub open spec fn lacks_a_lock(response: SecondaryLocks) -> bool {
    response.locks@.len() < response.expected
}

/// All the locks of the region are there, and one of them does not use asynchronous commit.
pub open spec fn has_a_plain_lock(response: SecondaryLocks) -> bool {
    response.locks@.len() >= response.expected && exists|j: int|
        0 <= j < response.locks@.len() && !(#[trigger] response.locks@[j]).use_async_commit
}

/// No lock of the region may be committed later than at the given version.
pub open spec fn allows(response: SecondaryLocks, version: u64) -> bool {
    forall|j: int|
        0 <= j < response.locks@.len() ==> (#[trigger] response.locks@[j]).min_commit_ts <= version
}

/// The region is the first one that lacks a lock.
pub open spec fn is_first_to_lack(responses: Seq<SecondaryLocks>, at: int) -> bool {
    &&& 0 <= at < responses.len()
    &&& lacks_a_lock(responses[at])
    &&& forall|i: int| 0 <= i < at ==> !lacks_a_lock(#[trigger] responses[i])
}

/// What is told, and what the secondary locks of the regions tell, is the same.
pub open spec fn is_told(
    responses: Seq<SecondaryLocks>,
    primary_min_commit_ts: u64,
    told: Result<SecondaryLocksStatus>,
) -> bool {
    all_secondaries_verdict(responses, primary_min_commit_ts).tells(primary_min_commit_ts, told)
}

proof fn lemma_skip_one(responses: Seq<SecondaryLocks>)
    requires
        responses.len() > 0,
    ensures
        forall|i: int|
            0 <= i < responses.len() - 1 ==> #[trigger] responses.skip(1)[i] == responses[i + 1],
{
}

proof fn lemma_plain_or_async(response: SecondaryLocks)
    requires
        !lacks_a_lock(response),
    ensures
        has_a_plain_lock(response) <==> !all_async(response.locks@),
{
}

/// The largest of the least commit timestamps is one of them.
pub proof fn law_the_commit_is_as_early_as_can_be(locks: Seq<LockInfo>, least: u64)
    ensures
        max_min_commit_ts(locks, least) == least || exists|i: int|
            0 <= i < locks.len() && (#[trigger] locks[i]).min_commit_ts == max_min_commit_ts(
                locks,
                least,
            ),
    decreases locks.len(),
{
    if locks.len() > 0 {
        let lock = locks[0].min_commit_ts;
        let next = if lock > least {
            lock
        } else {
            least
        };
        let rest = locks.skip(1);
        law_the_commit_is_as_early_as_can_be(rest, next);
        let max = max_min_commit_ts(locks, least);
        if max != next {
            let i = choose|i: int| 0 <= i < rest.len() && (#[trigger] rest[i]).min_commit_ts == max;
            assert(locks[i + 1].min_commit_ts == max);
        } else if max != least {
            assert(locks[0].min_commit_ts == max);
        }
    }
}

/// Nothing so far stands against a commit at the given version, where 0 stands for a rollback.
spec fn may_end_at(known: SecondariesSoFar, version: u64) -> bool {
    &&& known.missing_lock == known.commit_ts is Some
    &&& known.commit_ts is Some ==> known.commit_ts->0 == version
    &&& version == 0 || known.min_commit_ts <= version
}

proof fn lemma_agreed_end(known: SecondariesSoFar, responses: Seq<SecondaryLocks>, version: u64)
    requires
        may_end_at(known, version),
        forall|i: int|
            0 <= i < responses.len() && lacks_a_lock(#[trigger] responses[i])
                ==> responses[i].commit_ts == version,
        forall|i: int|
            0 <= i < responses.len() && !lacks_a_lock(#[trigger] responses[i])
                ==> !has_a_plain_lock(responses[i]) && (version == 0 || allows(
                responses[i],
                version,
            )),
    ensures
        secondaries_verdict(known, responses) is Known,
        ({
            let end = secondaries_verdict(known, responses)->Known_0;
            &&& may_end_at(end, version)
            &&& end.commit_ts is Some <==> known.commit_ts is Some || exists|i: int|
                0 <= i < responses.len() && lacks_a_lock(#[trigger] responses[i])
        }),
    decreases responses.len(),
{
    if responses.len() > 0 {
        let first = responses[0];
        let rest = responses.skip(1);
        lemma_skip_one(responses);
        if !lacks_a_lock(first) {
            lemma_plain_or_async(first);
            law_the_commit_is_as_early_as_can_be(first.locks@, known.min_commit_ts);
        }
        let next = region_verdict(known, first)->Known_0;
        assert(may_end_at(next, version));
        assert forall|i: int| 0 <= i < rest.len() && lacks_a_lock(#[trigger] rest[i]) implies rest[i].commit_ts
            == version by {
            assert(rest[i] == responses[i + 1]);
        }
        assert forall|i: int| 0 <= i < rest.len() && !lacks_a_lock(#[trigger] rest[i]) implies !has_a_plain_lock(
            rest[i],
        ) && (version == 0 || allows(rest[i], version)) by {
            assert(rest[i] == responses[i + 1]);
        }
        lemma_agreed_end(next, rest, version);
        if exists|i: int| 0 <= i < rest.len() && lacks_a_lock(#[trigger] rest[i]) {
            let i = choose|i: int| 0 <= i < rest.len() && lacks_a_lock(#[trigger] rest[i]);
            assert(lacks_a_lock(responses[i + 1]));
        }
        if exists|i: int| 0 <= i < responses.len() && lacks_a_lock(#[trigger] responses[i]) {
            let i = choose|i: int| 0 <= i < responses.len() && lacks_a_lock(#[trigger] responses[i]);
            if i > 0 {
                assert(rest[i - 1] == responses[i]);
            }
        }
    }
}

/// Where a lock is gone, all the regions that lack one agree on the end of the transaction, and
/// nothing speaks against that end, the transaction has ended so. It does not matter how many
/// regions lack a lock, nor in which order they are asked.
pub proof fn law_regions_that_agree_are_believed(
    responses: Seq<SecondaryLocks>,
    primary_min_commit_ts: u64,
    version: u64,
    told: Result<SecondaryLocksStatus>,
)
    requires
        is_told(responses, primary_min_commit_ts, told),
        exists|i: int| 0 <= i < responses.len() && lacks_a_lock(#[trigger] responses[i]),
        forall|i: int|
            0 <= i < responses.len() && lacks_a_lock(#[trigger] responses[i])
                ==> responses[i].commit_ts == version,
        forall|i: int|
            0 <= i < responses.len() && !lacks_a_lock(#[trigger] responses[i])
                ==> !has_a_plain_lock(responses[i]) && (version == 0 || allows(
                responses[i],
                version,
            )),
        version == 0 || primary_min_commit_ts <= version,
    ensures
        told is Ok,
        !told->Ok_0.fallback_2pc,
        told->Ok_0.min_commit_ts == version,
        told->Ok_0.commit_ts is None <==> version == 0,
        version != 0 ==> told->Ok_0.commit_ts->0.physical * 262144
            + told->Ok_0.commit_ts->0.logical == version,
        told->Ok_0.version() == version,
{
    let known = SecondariesSoFar {
        min_commit_ts: primary_min_commit_ts,
        missing_lock: false,
        commit_ts: None,
    };
    lemma_agreed_end(known, responses, version);
    law_versions_and_timestamps_agree(version);
}

/// What is known after the regions is the same as what is known after the first of them and then
/// after the others.
proof fn lemma_verdict_of_two(
    known: SecondariesSoFar,
    a: Seq<SecondaryLocks>,
    b: Seq<SecondaryLocks>,
)
    ensures
        secondaries_verdict(known, a + b) == match secondaries_verdict(known, a) {
            SecondariesVerdict::Known(next) => secondaries_verdict(next, b),
            verdict => verdict,
        },
    decreases a.len(),
{
    if a.len() == 0 {
        assert(a + b =~= b);
    } else {
        assert((a + b).skip(1) =~= a.skip(1) + b);
        match region_verdict(known, a[0]) {
            SecondariesVerdict::Known(next) => lemma_verdict_of_two(next, a.skip(1), b),
            _ => {},
        }
    }
}

/// Once a region has shown that the transaction does not use asynchronous commit after all, or
/// that what is told cannot be, the regions behind it change nothing.
pub proof fn law_later_regions_change_no_decision(
    first: Seq<SecondaryLocks>,
    more: Seq<SecondaryLocks>,
    primary_min_commit_ts: u64,
    early: Result<SecondaryLocksStatus>,
    told: Result<SecondaryLocksStatus>,
)
    requires
        is_told(first, primary_min_commit_ts, early),
        is_told(first + more, primary_min_commit_ts, told),
        early is Err || early->Ok_0.fallback_2pc,
    ensures
        early is Err ==> told is Err && told->Err_0 is InternalError && early->Err_0
            is InternalError && told->Err_0->InternalError_message@
            == early->Err_0->InternalError_message@,
        early is Ok ==> told == early,
{
    let known = SecondariesSoFar {
        min_commit_ts: primary_min_commit_ts,
        missing_lock: false,
        commit_ts: None,
    };
    lemma_verdict_of_two(known, first, more);
}

/// What a verdict that nothing stands against says of the regions.
proof fn lemma_known_end(known: SecondariesSoFar, responses: Seq<SecondaryLocks>)
    requires
        known.missing_lock == known.commit_ts is Some,
        secondaries_verdict(known, responses) is Known,
    ensures
        ({
            let end = secondaries_verdict(known, responses)->Known_0;
            &&& known.commit_ts is Some ==> end.commit_ts == known.commit_ts
            &&& end.commit_ts is Some <==> known.commit_ts is Some || exists|i: int|
                0 <= i < responses.len() && lacks_a_lock(#[trigger] responses[i])
            &&& forall|i: int|
                0 <= i < responses.len() && lacks_a_lock(#[trigger] responses[i]) ==> end.commit_ts
                    == Some(responses[i].commit_ts)
            &&& forall|i: int|
                0 <= i < responses.len() ==> !has_a_plain_lock(#[trigger] responses[i])
            &&& known.commit_ts is None && end.commit_ts is Some && end.commit_ts->0 != 0
                ==> known.min_commit_ts <= end.commit_ts->0 && forall|i: int, k: int|
                is_first_to_lack(responses, i) && 0 <= k < i ==> #[trigger] allows(
                    responses[k],
                    (#[trigger] responses[i]).commit_ts,
                )
            &&& end.commit_ts is None ==> {
                &&& known.min_commit_ts <= end.min_commit_ts
                &&& forall|i: int|
                    0 <= i < responses.len() ==> allows(#[trigger] responses[i], end.min_commit_ts)
                &&& end.min_commit_ts == known.min_commit_ts || exists|i: int, j: int|
                    0 <= i < responses.len() && 0 <= j < responses[i].locks@.len() && (
                    #[trigger] responses[i].locks@[j]).min_commit_ts == end.min_commit_ts
            }
        }),
    decreases responses.len(),
{
    if responses.len() > 0 {
        let first = responses[0];
        let rest = responses.skip(1);
        let next = region_verdict(known, first)->Known_0;
        lemma_skip_one(responses);
        lemma_known_end(next, rest);
        let end = secondaries_verdict(known, responses)->Known_0;
        if !lacks_a_lock(first) {
            lemma_plain_or_async(first);
            law_the_commit_is_not_too_early(first.locks@, known.min_commit_ts);
            law_the_commit_is_as_early_as_can_be(first.locks@, known.min_commit_ts);
        }
        assert forall|i: int|
            0 <= i < responses.len() && lacks_a_lock(#[trigger] responses[i]) implies end.commit_ts
            == Some(responses[i].commit_ts) by {
            if i > 0 {
                assert(rest[i - 1] == responses[i]);
            }
        }
        assert forall|i: int| 0 <= i < responses.len() implies !has_a_plain_lock(
            #[trigger] responses[i],
        ) by {
            if i > 0 {
                assert(rest[i - 1] == responses[i]);
            }
        }
        if exists|i: int| 0 <= i < rest.len() && lacks_a_lock(#[trigger] rest[i]) {
            let i = choose|i: int| 0 <= i < rest.len() && lacks_a_lock(#[trigger] rest[i]);
            assert(lacks_a_lock(responses[i + 1]));
        }
        if exists|i: int| 0 <= i < responses.len() && lacks_a_lock(#[trigger] responses[i]) {
            let i = choose|i: int| 0 <= i < responses.len() && lacks_a_lock(#[trigger] responses[i]);
            if i > 0 {
                assert(rest[i - 1] == responses[i]);
            }
        }
        if known.commit_ts is None && end.commit_ts is Some && end.commit_ts->0 != 0 {
            assert forall|i: int, k: int|
                is_first_to_lack(responses, i) && 0 <= k < i implies #[trigger] allows(
                responses[k],
                (#[trigger] responses[i]).commit_ts,
            ) by {
                assert(!lacks_a_lock(responses[0]));
                assert(rest[i - 1] == responses[i]);
                assert forall|m: int| 0 <= m < i - 1 implies !lacks_a_lock(#[trigger] rest[m]) by {
                    assert(rest[m] == responses[m + 1]);
                }
                assert(is_first_to_lack(rest, i - 1));
                if k > 0 {
                    assert(rest[k - 1] == responses[k]);
                    assert(allows(rest[k - 1], rest[i - 1].commit_ts));
                }
            }
        }
        if end.commit_ts is None {
            assert forall|i: int| 0 <= i < responses.len() implies allows(
                #[trigger] responses[i],
                end.min_commit_ts,
            ) by {
                if i > 0 {
                    assert(rest[i - 1] == responses[i]);
                }
            }
            if end.min_commit_ts != next.min_commit_ts {
                let (i, j) = choose|i: int, j: int|
                    0 <= i < rest.len() && 0 <= j < rest[i].locks@.len() && (
                    #[trigger] rest[i].locks@[j]).min_commit_ts == end.min_commit_ts;
                assert(responses[i + 1].locks@[j].min_commit_ts == end.min_commit_ts);
            } else if end.min_commit_ts != known.min_commit_ts {
                let j = choose|j: int|
                    0 <= j < first.locks@.len() && (#[trigger] first.locks@[j]).min_commit_ts
                        == end.min_commit_ts;
                assert(responses[0].locks@[j].min_commit_ts == end.min_commit_ts);
            }
        }
    }
}

/// Where the transaction is taken to use asynchronous commit, all the locks of the regions that
/// lack none do use it. If a region lacks one, all that do say the same of the end, which is what
/// is told, and is not earlier than the primary lock and the locks of the regions before allow. If none does, the transaction can be
/// committed at the largest of all the least commit timestamps, and no later.
pub proof fn law_what_is_told_agrees_with_all_regions(
    responses: Seq<SecondaryLocks>,
    primary_min_commit_ts: u64,
    told: Result<SecondaryLocksStatus>,
)
    requires
        is_told(responses, primary_min_commit_ts, told),
        told is Ok,
        !told->Ok_0.fallback_2pc,
    ensures
        forall|i: int| 0 <= i < responses.len() ==> !has_a_plain_lock(#[trigger] responses[i]),
        forall|i: int|
            0 <= i < responses.len() && lacks_a_lock(#[trigger] responses[i])
                ==> responses[i].commit_ts == told->Ok_0.version() && told->Ok_0.min_commit_ts
                == responses[i].commit_ts && (told->Ok_0.commit_ts is Some
                <==> responses[i].commit_ts != 0) && (responses[i].commit_ts == 0
                || primary_min_commit_ts <= responses[i].commit_ts),
        forall|i: int, k: int|
            is_first_to_lack(responses, i) && responses[i].commit_ts != 0 && 0 <= k < i
                ==> #[trigger] allows(responses[k], (#[trigger] responses[i]).commit_ts),
        (forall|i: int| 0 <= i < responses.len() ==> !lacks_a_lock(#[trigger] responses[i])) ==> {
            let version = told->Ok_0.version();
            &&& told->Ok_0.commit_ts is None
            &&& told->Ok_0.min_commit_ts == version
            &&& primary_min_commit_ts <= version
            &&& forall|i: int|
                0 <= i < responses.len() ==> allows(#[trigger] responses[i], version)
            &&& version == primary_min_commit_ts || exists|i: int, j: int|
                0 <= i < responses.len() && 0 <= j < responses[i].locks@.len() && (
                #[trigger] responses[i].locks@[j]).min_commit_ts == version
        },
{
    let known = SecondariesSoFar {
        min_commit_ts: primary_min_commit_ts,
        missing_lock: false,
        commit_ts: None,
    };
    lemma_known_end(known, responses);
    let end = secondaries_verdict(known, responses)->Known_0;
    if end.commit_ts is Some {
        law_versions_and_timestamps_agree(end.commit_ts->0);
    }
}

proof fn lemma_reasons(known: SecondariesSoFar, responses: Seq<SecondaryLocks>)
    requires
        known.missing_lock == known.commit_ts is Some,
    ensures
        match secondaries_verdict(known, responses) {
            SecondariesVerdict::Fallback => exists|i: int|
                0 <= i < responses.len() && has_a_plain_lock(#[trigger] responses[i]),
            SecondariesVerdict::TooEarly { commit_ts, min_commit_ts } => {
                &&& known.commit_ts is None
                &&& commit_ts != 0 && commit_ts < min_commit_ts
                &&& exists|i: int|
                    0 <= i < responses.len() && lacks_a_lock(#[trigger] responses[i])
                        && responses[i].commit_ts == commit_ts
                &&& min_commit_ts == known.min_commit_ts || exists|i: int, j: int|
                    0 <= i < responses.len() && !lacks_a_lock(responses[i]) && 0 <= j
                        < responses[i].locks@.len() && (
                    #[trigger] responses[i].locks@[j]).min_commit_ts == min_commit_ts
            },
            SecondariesVerdict::Mismatch { first, second } => {
                &&& first != second
                &&& known.commit_ts == Some(first) || exists|i: int|
                    0 <= i < responses.len() && lacks_a_lock(#[trigger] responses[i])
                        && responses[i].commit_ts == first
                &&& exists|i: int|
                    0 <= i < responses.len() && lacks_a_lock(#[trigger] responses[i])
                        && responses[i].commit_ts == second
            },
            SecondariesVerdict::Known(_) => true,
        },
    decreases responses.len(),
{
    if responses.len() > 0 {
        let first = responses[0];
        let rest = responses.skip(1);
        lemma_skip_one(responses);
        if !lacks_a_lock(first) {
            lemma_plain_or_async(first);
            law_the_commit_is_as_early_as_can_be(first.locks@, known.min_commit_ts);
        }
        match region_verdict(known, first) {
            SecondariesVerdict::Known(next) => {
                lemma_reasons(next, rest);
                match secondaries_verdict(next, rest) {
                    SecondariesVerdict::Fallback => {
                        let i = choose|i: int|
                            0 <= i < rest.len() && has_a_plain_lock(#[trigger] rest[i]);
                        assert(has_a_plain_lock(responses[i + 1]));
                    },
                    SecondariesVerdict::TooEarly { commit_ts, min_commit_ts } => {
                        let i = choose|i: int|
                            0 <= i < rest.len() && lacks_a_lock(#[trigger] rest[i])
                                && rest[i].commit_ts == commit_ts;
                        assert(lacks_a_lock(responses[i + 1]));
                        if min_commit_ts != next.min_commit_ts {
                            let (i, j) = choose|i: int, j: int|
                                0 <= i < rest.len() && !lacks_a_lock(rest[i]) && 0 <= j
                                    < rest[i].locks@.len() && (
                                #[trigger] rest[i].locks@[j]).min_commit_ts == min_commit_ts;
                            assert(responses[i + 1].locks@[j].min_commit_ts == min_commit_ts);
                        } else if min_commit_ts != known.min_commit_ts {
                            let j = choose|j: int|
                                0 <= j < first.locks@.len() && (
                                #[trigger] first.locks@[j]).min_commit_ts == min_commit_ts;
                            assert(responses[0].locks@[j].min_commit_ts == min_commit_ts);
                        }
                    },
                    SecondariesVerdict::Mismatch { first: a, second: b } => {
                        let i = choose|i: int|
                            0 <= i < rest.len() && lacks_a_lock(#[trigger] rest[i])
                                && rest[i].commit_ts == b;
                        assert(lacks_a_lock(responses[i + 1]));
                        if next.commit_ts != Some(a) {
                            let i = choose|i: int|
                                0 <= i < rest.len() && lacks_a_lock(#[trigger] rest[i])
                                    && rest[i].commit_ts == a;
                            assert(lacks_a_lock(responses[i + 1]));
                        } else if known.commit_ts != Some(a) {
                            assert(lacks_a_lock(responses[0]));
                        }
                    },
                    _ => {},
                }
            },
            SecondariesVerdict::Fallback => {
                assert(has_a_plain_lock(responses[0]));
            },
            _ => {
                assert(lacks_a_lock(responses[0]));
            },
        }
    }
}

/// The transaction is taken not to use asynchronous commit only if a region that lacks no lock has
/// a lock that does not use it. What is told is an error only if two regions that lack a lock
/// differ on the end, or one of them tells of a commit that is too early for the primary lock or
/// for a lock that is there. The error names the two versions.
pub proof fn law_there_is_a_reason_not_to_believe(
    responses: Seq<SecondaryLocks>,
    primary_min_commit_ts: u64,
    told: Result<SecondaryLocksStatus>,
)
    requires
        is_told(responses, primary_min_commit_ts, told),
    ensures
        told is Ok && told->Ok_0.fallback_2pc ==> {
            &&& exists|i: int| 0 <= i < responses.len() && has_a_plain_lock(#[trigger] responses[i])
            &&& told->Ok_0.commit_ts is None
            &&& told->Ok_0.min_commit_ts == primary_min_commit_ts
        },
        told is Err ==> {
            ||| exists|i: int, k: int|
                0 <= i < responses.len() && 0 <= k < responses.len() && #[trigger] lacks_a_lock(
                    responses[i],
                ) && #[trigger] lacks_a_lock(responses[k]) && responses[i].commit_ts
                    != responses[k].commit_ts && told->Err_0.is_internal(
                    "commit ts mismatch in async commit recovery: "@ + decimal(
                        responses[i].commit_ts as nat,
                    ) + " and "@ + decimal(responses[k].commit_ts as nat),
                )
            ||| exists|i: int, least: u64|
                0 <= i < responses.len() && lacks_a_lock(responses[i]) && responses[i].commit_ts
                    != 0 && responses[i].commit_ts < least && #[trigger] is_least_commit_ts(
                    responses,
                    primary_min_commit_ts,
                    least,
                ) && told->Err_0.is_internal(
                    "commit ts must be >= min commit ts: commit_ts="@ + decimal(
                        (#[trigger] responses[i]).commit_ts as nat,
                    ) + ", min_commit_ts="@ + decimal(least as nat),
                )
        },
{
    let known = SecondariesSoFar {
        min_commit_ts: primary_min_commit_ts,
        missing_lock: false,
        commit_ts: None,
    };
    lemma_reasons(known, responses);
    match secondaries_verdict(known, responses) {
        SecondariesVerdict::TooEarly { commit_ts, min_commit_ts } => {
            let i = choose|i: int|
                0 <= i < responses.len() && lacks_a_lock(#[trigger] responses[i])
                    && responses[i].commit_ts == commit_ts;
            assert(is_least_commit_ts(responses, primary_min_commit_ts, min_commit_ts));
            assert(responses[i].commit_ts < min_commit_ts);
        },
        SecondariesVerdict::Mismatch { first, second } => {
            let i = choose|i: int|
                0 <= i < responses.len() && lacks_a_lock(#[trigger] responses[i])
                    && responses[i].commit_ts == first;
            let k = choose|k: int|
                0 <= k < responses.len() && lacks_a_lock(#[trigger] responses[k])
                    && responses[k].commit_ts == second;
            assert(lacks_a_lock(responses[i]) && lacks_a_lock(responses[k]));
        },
        _ => {},
    }
}

/// The primary lock, or a lock of a region that lacks none, has the least commit timestamp.
pub open spec fn is_least_commit_ts(
    responses: Seq<SecondaryLocks>,
    primary_min_commit_ts: u64,
    least: u64,
) -> bool {
    least == primary_min_commit_ts || exists|i: int, j: int|
        0 <= i < responses.len() && !lacks_a_lock(responses[i]) && 0 <= j
            < responses[i].locks@.len() && (#[trigger] responses[i].locks@[j]).min_commit_ts
            == least
}

/// What is told is what the check of all regions gives.
pub proof fn law_the_check_tells_it(
    responses: &Vec<SecondaryLocks>,
    primary_min_commit_ts: u64,
    r: Result<SecondaryLocksStatus>,
)
    requires
        call_ensures(check_all_secondaries, (responses, primary_min_commit_ts), r),
    ensures
        is_told(responses@, primary_min_commit_ts, r),
{
}

} // verus!
