use tikv_client::common::errors::{
    internal_err, AssertionKind, Error, GrpcStatus, OutsideError, WriteConflictError,
    WriteConflictReason,
};
use tikv_client::kv::bound::Bound;
use tikv_client::kv::bound_range::BoundRange;
use tikv_client::kv::key::Key;
use tikv_client::proto::deadlock;
use tikv_client::proto::errorpb;
use tikv_client::proto::kvrpcpb;
use tikv_client::region::RegionVerId;

#[test]
fn key_error_conflict_maps_to_write_conflict() {
    let mut key_error = kvrpcpb::KeyError::default();
    key_error.conflict = Some(kvrpcpb::WriteConflict {
        start_ts: 1,
        conflict_ts: 2,
        key: vec![0xAA],
        primary: vec![0xBB],
        conflict_commit_ts: 3,
        reason: 1,
    });
    let err: Error = key_error.into();
    let Error::WriteConflict(conflict) = err else {
        panic!("expected Error::WriteConflict");
    };
    assert_eq!(conflict.start_ts, 1);
    assert_eq!(conflict.conflict_ts, 2);
    assert_eq!(conflict.conflict_commit_ts, 3);
    assert_eq!(conflict.key, vec![0xAA]);
    assert_eq!(conflict.primary, vec![0xBB]);
    assert_eq!(conflict.reason, WriteConflictReason::Optimistic);
}

#[test]
fn key_error_retryable_maps_to_retryable() {
    let mut key_error = kvrpcpb::KeyError::default();
    key_error.retryable = "retry me".to_owned();
    let err: Error = key_error.into();
    let Error::Retryable { message } = err else {
        panic!("expected Error::Retryable");
    };
    assert_eq!(message, "retry me");
}

#[test]
fn key_error_assertion_failed_maps_to_assertion_failed() {
    let mut key_error = kvrpcpb::KeyError::default();
    key_error.assertion_failed = Some(kvrpcpb::AssertionFailed {
        start_ts: 1,
        key: vec![0xAB],
        assertion: 2,
        existing_start_ts: 2,
        existing_commit_ts: 3,
    });
    let err: Error = key_error.into();
    let Error::AssertionFailed(failed) = err else {
        panic!("expected Error::AssertionFailed");
    };
    assert_eq!(failed.start_ts, 1);
    assert_eq!(failed.key, vec![0xAB]);
    assert_eq!(failed.assertion, AssertionKind::NotExist);
    assert_eq!(failed.existing_start_ts, 2);
    assert_eq!(failed.existing_commit_ts, 3);
}

#[test]
fn key_error_already_exist_maps_to_key_exists() {
    let mut key_error = kvrpcpb::KeyError::default();
    key_error.already_exist = Some(kvrpcpb::AlreadyExist { key: vec![0x01] });
    let err: Error = key_error.into();
    let Error::KeyExists(exist) = err else {
        panic!("expected Error::KeyExists");
    };
    assert_eq!(exist.key, vec![0x01]);
}

#[test]
fn key_error_deadlock_maps_to_deadlock() {
    let mut key_error = kvrpcpb::KeyError::default();
    key_error.deadlock = Some(kvrpcpb::Deadlock {
        lock_ts: 10,
        lock_key: vec![0x11, 0x22],
        deadlock_key_hash: 42,
        wait_chain: vec![deadlock::WaitForEntry {
            txn: 1,
            wait_for_txn: 2,
            key_hash: 3,
            key: vec![0x01],
            resource_group_tag: vec![0x02],
            wait_time: 7,
        }],
        deadlock_key: vec![0x33],
    });
    let err: Error = key_error.into();
    let Error::Deadlock(deadlock) = err else {
        panic!("expected Error::Deadlock");
    };
    assert_eq!(deadlock.lock_ts, 10);
    assert_eq!(deadlock.lock_key, vec![0x11, 0x22]);
    assert_eq!(deadlock.deadlock_key_hash, 42);
    assert_eq!(deadlock.deadlock_key, vec![0x33]);
    assert_eq!(deadlock.wait_chain.len(), 1);
    assert_eq!(deadlock.wait_chain[0].txn, 1);
    assert_eq!(deadlock.wait_chain[0].wait_for_txn, 2);
    assert_eq!(deadlock.wait_chain[0].key_hash, 3);
    assert_eq!(deadlock.wait_chain[0].key, vec![0x01]);
    assert_eq!(deadlock.wait_chain[0].resource_group_tag, vec![0x02]);
    assert_eq!(deadlock.wait_chain[0].wait_time_ms, 7);
}

#[test]
fn key_error_abort_maps_to_txn_aborted() {
    let mut key_error = kvrpcpb::KeyError::default();
    key_error.abort = "boom".to_owned();
    let err: Error = key_error.into();
    let Error::TxnAborted { message } = err else {
        panic!("expected Error::TxnAborted");
    };
    assert_eq!(message, "boom");
}

#[test]
fn key_error_commit_ts_too_large_maps() {
    let mut key_error = kvrpcpb::KeyError::default();
    key_error.commit_ts_too_large = Some(kvrpcpb::CommitTsTooLarge { commit_ts: 123 });
    let err: Error = key_error.into();
    let Error::CommitTsTooLarge { commit_ts } = err else {
        panic!("expected Error::CommitTsTooLarge");
    };
    assert_eq!(commit_ts, 123);
}

#[test]
fn key_error_txn_not_found_maps() {
    let mut key_error = kvrpcpb::KeyError::default();
    key_error.txn_not_found = Some(kvrpcpb::TxnNotFound { start_ts: 7, primary_key: vec![0x01] });
    let err: Error = key_error.into();
    let Error::TxnNotFound { start_ts } = err else {
        panic!("expected Error::TxnNotFound");
    };
    assert_eq!(start_ts, 7);
}

#[test]
fn key_error_without_a_kind_stays_a_key_error() {
    let err: Error = kvrpcpb::KeyError::default().into();
    assert!(matches!(err, Error::KeyError(_)));
}

#[test]
fn region_error_is_boxed() {
    let e = errorpb::Error::with_message("moved".to_owned());
    let Error::RegionError(e) = Error::from(e) else {
        panic!("expected Error::RegionError");
    };
    assert_eq!(e.message, "moved");
}

#[test]
fn undetermined_error_query() {
    assert!(Error::UndeterminedError(Box::new(Error::Unimplemented)).is_undetermined());
    assert!(!Error::Unimplemented.is_undetermined());
}

#[test]
fn reason_and_assertion_kind_mappings_are_stable() {
    assert_eq!(WriteConflictReason::from(1).to_string(), "optimistic");
    assert_eq!(WriteConflictReason::from(2).to_string(), "pessimistic_retry");
    assert_eq!(WriteConflictReason::from(3).to_string(), "self_rolled_back");
    assert_eq!(WriteConflictReason::from(4).to_string(), "rc_check_ts");
    assert_eq!(WriteConflictReason::from(5).to_string(), "lazy_uniqueness_check");
    assert_eq!(WriteConflictReason::from(6).to_string(), "not_locked_key_conflict");
    assert_eq!(WriteConflictReason::from(-1).to_string(), "unknown");

    assert_eq!(AssertionKind::from(1).to_string(), "exist");
    assert_eq!(AssertionKind::from(2).to_string(), "not_exist");
    assert_eq!(AssertionKind::from(-1).to_string(), "none");
}

fn make_wc() -> Error {
    Error::WriteConflict(WriteConflictError {
        start_ts: 1,
        conflict_ts: 2,
        conflict_commit_ts: 3,
        key: vec![0x01],
        primary: vec![0x02],
        reason: WriteConflictReason::Optimistic,
    })
}

#[test]
fn error_queries_recurse_through_wrappers() {
    let wc = make_wc();
    assert!(wc.is_write_conflict());
    assert!(!wc.is_deadlock());
    assert!(!wc.is_key_exists());
    assert!(!wc.is_assertion_failed());

    let wrapped = Error::UndeterminedError(Box::new(make_wc()));
    assert!(wrapped.is_write_conflict());
    assert!(wrapped.is_undetermined());

    let pessimistic =
        Error::PessimisticLockError { inner: Box::new(make_wc()), success_keys: vec![] };
    assert!(pessimistic.is_write_conflict());

    let multi = Error::MultipleKeyErrors(vec![Error::Unimplemented, make_wc()]);
    assert!(multi.is_write_conflict());

    let extracted = Error::ExtractedErrors(vec![Error::Unimplemented, make_wc()]);
    assert!(extracted.is_write_conflict());
}

#[test]
fn internal_err_macro_contains_message() {
    let err = internal_err("boom");
    let msg = err.to_string();
    assert!(msg.contains("boom"), "{msg}");
}

#[test]
fn texts_of_errors() {
    assert_eq!(Error::Unimplemented.to_string(), "Unimplemented feature");
    assert_eq!(
        make_wc().to_string(),
        "Write conflict: start_ts=1, conflict_ts=2, conflict_commit_ts=3, reason=optimistic, key_len=1"
    );
    assert_eq!(
        Error::CommitTsLag { commit_ts: 18, wait_until_tso: 20 }.to_string(),
        "Commit TS 18 is behind commit-wait TSO 20"
    );
    assert_eq!(
        Error::MaxScanLimitExceeded { limit: 7, max_limit: 5 }.to_string(),
        "Limit 7 exceeds max scan limit 5"
    );
    assert_eq!(
        Error::LeaderNotFound { region: RegionVerId { id: 12, conf_ver: 1, ver: 2 } }.to_string(),
        "Leader of region 12 is not found"
    );
    assert_eq!(
        Error::GrpcAPI(GrpcStatus {
            code: 14,
            message: "unavailable".to_owned(),
            text: "status: Unavailable, message: \"unavailable\"".to_owned(),
            details: "Status { code: Unavailable }".to_owned(),
        })
        .to_string(),
        "gRPC api error: status: Unavailable, message: \"unavailable\""
    );
    assert_eq!(Error::StringError("as it is".to_owned()).to_string(), "as it is");
    assert_eq!(Error::LockWaitTimeout(vec![]).to_string(), "Lock wait timeout exceeded; try restarting transaction");
}

#[test]
fn texts_of_errors_with_details() {
    assert_eq!(
        Error::RegionForKeyNotFound { key: vec![1, 2] }.to_string(),
        "Region is not found for key: [1, 2]"
    );
    assert_eq!(
        Error::RegionForKeyNotFound { key: vec![] }.to_string(),
        "Region is not found for key: []"
    );
    assert_eq!(
        Error::ExtractedErrors(vec![Error::Unimplemented]).to_string(),
        "Multiple errors: [Unimplemented]"
    );
    assert_eq!(
        Error::MultipleKeyErrors(vec![Error::NoPrimaryKey, Error::OnePcFailure]).to_string(),
        "Multiple key errors: [NoPrimaryKey, OnePcFailure]"
    );
    assert_eq!(
        Error::RegionForRangeNotFound {
            range: BoundRange { from: Bound::Included(Key(vec![0x01, 0xAF])), to: Bound::Unbounded },
        }
        .to_string(),
        "Region is not found for range: BoundRange { from: Included(Key(01AF)), to: Unbounded }"
    );
    assert_eq!(
        Error::PessimisticLockError {
            inner: Box::new(Error::StringError("x".to_owned())),
            success_keys: vec![],
        }
        .to_string(),
        "PessimisticLock error: StringError(\"x\")"
    );
    let region_error = errorpb::Error { message: "gone".to_owned(), ..Default::default() };
    assert_eq!(
        Error::RegionError(Box::new(region_error.clone())).to_string(),
        format!("Region error: {region_error:?}")
    );
    let key_error = kvrpcpb::KeyError { abort: "late".to_owned(), ..Default::default() };
    assert_eq!(
        Error::KeyError(Box::new(key_error.clone())).to_string(),
        format!("{key_error:?}")
    );
}

#[test]
fn texts_of_errors_of_other_libraries() {
    let outside =
        || OutsideError { text: "not found".to_owned(), details: "NotFound".to_owned() };
    assert_eq!(Error::Io(outside()).to_string(), "IO error: not found");
    assert_eq!(Error::Url(outside()).to_string(), "url error: not found");
    assert_eq!(Error::JoinError(outside()).to_string(), "Failed to join tokio tasks");
    assert_eq!(Error::InvalidSemver(outside()).to_string(), "Invalid Semver string: NotFound");
    let status = GrpcStatus {
        code: 14,
        message: "unavailable".to_owned(),
        text: "status: Unavailable".to_owned(),
        details: "Status { code: Unavailable }".to_owned(),
    };
    assert_eq!(
        Error::ExtractedErrors(vec![
            Error::Io(outside()),
            Error::Channel(outside()),
            Error::Grpc(outside()),
            Error::GrpcAPI(status),
            Error::Url(outside()),
            Error::Canceled(outside()),
            Error::JoinError(outside()),
            Error::InvalidSemver(outside()),
        ])
        .to_string(),
        "Multiple errors: [Io(NotFound), Channel(NotFound), Grpc(NotFound), \
        GrpcAPI(Status { code: Unavailable }), Url(NotFound), Canceled(NotFound), \
        JoinError(NotFound), InvalidSemver(NotFound)]"
    );
}

#[test]
fn texts_of_errors_within_errors() {
    let not_found = || Error::RegionForRangeNotFound {
        range: BoundRange {
            from: Bound::Included(Key(vec![0x01, 0xAF])),
            to: Bound::Excluded(Key(vec![])),
        },
    };
    let text = "RegionForRangeNotFound { range: BoundRange { from: Included(Key(01AF)), to: \
        Excluded(Key()) } }";
    assert_eq!(
        Error::ExtractedErrors(vec![not_found(), Error::Unimplemented]).to_string(),
        format!("Multiple errors: [{text}, Unimplemented]")
    );
    assert_eq!(
        Error::MultipleKeyErrors(vec![Error::PessimisticLockError {
            inner: Box::new(Error::UndeterminedError(Box::new(not_found()))),
            success_keys: vec![vec![1, 2], vec![]],
        }])
        .to_string(),
        format!(
            "Multiple key errors: [PessimisticLockError {{ inner: UndeterminedError({text}), \
            success_keys: [[1, 2], []] }}]"
        )
    );
    assert_eq!(
        Error::ExtractedErrors(vec![
            Error::ExtractedErrors(vec![]),
            Error::MultipleKeyErrors(vec![Error::NoPrimaryKey, Error::OnePcFailure]),
        ])
        .to_string(),
        "Multiple errors: [ExtractedErrors([]), MultipleKeyErrors([NoPrimaryKey, OnePcFailure])]"
    );
}
