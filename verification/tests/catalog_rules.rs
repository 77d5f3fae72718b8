use wavora::catalog::{
    favorite_change, file_identity_keys, fuzzy_identity, playlist_name, same_path_outcome,
    stored_position, FavoriteChange, SamePathOutcome,
};
use wavora::catalog::{
    acoustic_fingerprint_blob, decode_acoustic_fingerprint, duration_window,
    fuzzy_duration_tolerance_ms, fuzzy_reconciliation_allowed, missing_after_scan,
    reorder_entries, same_audio, signature_from_blob, sqlite_u64, unique_match,
    unique_missing_candidate, FingerprintBlobError,
};
use wavora::catalog::{
    first_identity_query, fuzzy_candidates, identity_step, IdentityAction, IdentityEvidence, IdentityObservation,
    IdentityQuery,
};
use wavora::ids::TrackId;
use wavora::media::AcousticFingerprint;

#[test]
fn fuzzy_tolerance_is_one_percent_clamped() {
    assert_eq!(fuzzy_duration_tolerance_ms(0), 3_000);
    assert_eq!(fuzzy_duration_tolerance_ms(500_000), 5_000);
    assert_eq!(fuzzy_duration_tolerance_ms(5_000_000), 10_000);
}

#[test]
fn sqlite_integers_saturate() {
    assert_eq!(sqlite_u64(5), 5);
    assert_eq!(sqlite_u64(u64::MAX), i64::MAX);
    assert_eq!(duration_window(1_000, 1_500), (0, 2_500));
    assert_eq!(duration_window(u64::MAX, 1_500), (i64::MAX, i64::MAX));
}

#[test]
fn same_audio_needs_equal_signature_and_close_duration() {
    let signature = [9u8; 32];
    assert!(same_audio(&signature, 10_000, &signature, 11_500));
    assert!(!same_audio(&signature, 10_000, &signature, 11_501));
    assert!(!same_audio(&[8u8; 32], 10_000, &signature, 10_000));
    assert!(!same_audio(&[9u8; 31], 10_000, &signature, 10_000));
}

#[test]
fn only_a_unique_missing_candidate_is_reconnected() {
    let a = TrackId::new();
    let b = TrackId::new();
    assert_eq!(unique_missing_candidate(&[(a, true, true), (b, false, true)]), Some(b));
    assert_eq!(unique_missing_candidate(&[(a, true, false), (b, false, true)]), None);
    assert_eq!(unique_missing_candidate(&[(a, true, true)]), None);
    assert_eq!(unique_match(&[a]), Some(a));
    assert_eq!(unique_match(&[a, b]), None);
    assert!(fuzzy_reconciliation_allowed(32));
    assert!(!fuzzy_reconciliation_allowed(33));
}

#[test]
fn a_finished_scan_marks_unseen_records_under_its_root() {
    let a = TrackId::new();
    let b = TrackId::new();
    let c = TrackId::new();
    let rows = vec![
        (a, "/music/a.flac".to_owned()),
        (b, "/music/sub/b.flac".to_owned()),
        (c, "/musicals/c.flac".to_owned()),
    ];
    assert_eq!(missing_after_scan(&rows, "/music", false, &vec![a]), vec![b]);
    assert_eq!(missing_after_scan(&rows, "/music/a.flac", true, &Vec::new()), vec![a]);
}

#[test]
fn playlist_entries_move_with_clamping() {
    let ids = vec![1, 2, 3, 4];
    assert_eq!(reorder_entries(&ids, 1, 2), Some(vec![2, 3, 1, 4]));
    assert_eq!(reorder_entries(&ids, 4, 0), Some(vec![4, 1, 2, 3]));
    assert_eq!(reorder_entries(&ids, 2, 99), Some(vec![1, 3, 4, 2]));
    assert_eq!(reorder_entries(&ids, 9, 0), None);
}

#[test]
fn fingerprints_round_trip_through_their_stored_form() {
    let fingerprint = AcousticFingerprint::from_parts(1, vec![0x0403_0201, 0xffff_0000]);
    let blob = acoustic_fingerprint_blob(&fingerprint);
    assert_eq!(blob, vec![1, 2, 3, 4, 0, 0, 0xff, 0xff]);
    let decoded = decode_acoustic_fingerprint(Some(1), Some(blob))
        .expect("decode")
        .expect("present");
    assert_eq!(decoded.algorithm(), 1);
    assert_eq!(decoded.items(), fingerprint.items());
}

#[test]
fn malformed_fingerprints_are_refused() {
    assert!(matches!(decode_acoustic_fingerprint(None, None), Ok(None)));
    assert_eq!(
        decode_acoustic_fingerprint(Some(1), None).err(),
        Some(FingerprintBlobError::IncompletePair)
    );
    assert_eq!(
        decode_acoustic_fingerprint(Some(-1), Some(vec![])).err(),
        Some(FingerprintBlobError::AlgorithmOutOfRange)
    );
    assert_eq!(
        decode_acoustic_fingerprint(Some(1), Some(vec![1, 2, 3])).err(),
        Some(FingerprintBlobError::NotWholeItems)
    );
    assert_eq!(
        decode_acoustic_fingerprint(Some(1), Some(vec![0; 4 * 2_049])).err(),
        Some(FingerprintBlobError::TooManyItems)
    );
}

#[test]
fn signatures_must_be_thirty_two_bytes() {
    assert_eq!(signature_from_blob(&vec![7; 32]), Ok([7; 32]));
    assert_eq!(signature_from_blob(&vec![7; 31]), Err(31));
}

#[test]
fn the_same_path_keeps_identity_only_for_the_same_audio() {
    let id = TrackId::new();
    let signature = [4u8; 32];
    assert_eq!(same_path_outcome(None, &signature, 1_000), SamePathOutcome::Absent);
    assert_eq!(same_path_outcome(Some((id, vec![4; 32], 2_000)), &signature, 1_000), SamePathOutcome::Same(id));
    assert_eq!(same_path_outcome(Some((id, vec![4; 32], 3_000)), &signature, 1_000), SamePathOutcome::Replaced(id));
    assert_eq!(same_path_outcome(Some((id, vec![5; 32], 1_000)), &signature, 1_000), SamePathOutcome::Replaced(id));
    assert_eq!(same_path_outcome(Some((id, vec![4; 32], -5)), &signature, 1_000), SamePathOutcome::Same(id));
}

#[test]
fn file_identity_needs_device_and_inode() {
    assert_eq!(file_identity_keys(Some(1), Some(2)), Some((Some(1), Some(2))));
    assert_eq!(file_identity_keys(Some(u64::MAX), Some(2)), Some((None, Some(2))));
    assert_eq!(file_identity_keys(None, Some(2)), None);
    assert_eq!(file_identity_keys(Some(1), None), None);
}

#[test]
fn fuzzy_identity_needs_few_candidates_and_one_match() {
    let a = TrackId::new();
    let b = TrackId::new();
    assert_eq!(fuzzy_identity(2, &[a]), Some(a));
    assert_eq!(fuzzy_identity(33, &[a]), None);
    assert_eq!(fuzzy_identity(2, &[a, b]), None);
    assert_eq!(fuzzy_identity(2, &[]), None);
}

#[test]
fn playlist_names_are_trimmed_and_never_empty() {
    assert_eq!(playlist_name("  Road trip \n"), Some("Road trip".to_owned()));
    assert_eq!(playlist_name(" \t "), None);
    assert_eq!(favorite_change(true, None), FavoriteChange::Add);
    assert_eq!(favorite_change(false, Some(7)), FavoriteChange::Remove(7));
    assert_eq!(favorite_change(true, Some(7)), FavoriteChange::Keep);
    assert_eq!(favorite_change(false, None), FavoriteChange::Keep);
    assert_eq!(stored_position(3), 3);
}

fn observed(device: Option<u64>, inode: Option<u64>) -> IdentityObservation {
    IdentityObservation { duration_ms: 200_000, device, inode, signature: [7; 32] }
}

#[test]
fn identity_checks_run_in_their_documented_order() {
    assert_eq!(
        first_identity_query(),
        IdentityAction::Ask { retire: None, query: IdentityQuery::SamePath }
    );
    let known = TrackId::new();
    let observation = observed(Some(3), Some(9));
    assert_eq!(
        identity_step(&observation, IdentityEvidence::SamePath(Some((known, vec![7; 32], 200_900)))),
        IdentityAction::Decide(Some(known))
    );
    assert_eq!(
        identity_step(&observation, IdentityEvidence::SamePath(Some((known, vec![8; 32], 200_000)))),
        IdentityAction::Ask {
            retire: Some(known),
            query: IdentityQuery::FileIdentity {
                device: Some(3),
                inode: Some(9),
                minimum: 198_500,
                maximum: 201_500,
            },
        }
    );
    assert_eq!(
        identity_step(&observed(None, Some(9)), IdentityEvidence::SamePath(None)),
        IdentityAction::Ask {
            retire: None,
            query: IdentityQuery::ExactSignature { minimum: 198_500, maximum: 201_500 },
        }
    );
    assert_eq!(
        identity_step(&observation, IdentityEvidence::FileIdentity(None)),
        IdentityAction::Ask {
            retire: None,
            query: IdentityQuery::ExactSignature { minimum: 198_500, maximum: 201_500 },
        }
    );
    let other = TrackId::new();
    assert_eq!(
        identity_step(
            &observation,
            IdentityEvidence::ExactSignature(vec![(other, true, true), (known, false, true)])
        ),
        IdentityAction::Decide(Some(known))
    );
    assert_eq!(
        identity_step(
            &observation,
            IdentityEvidence::ExactSignature(vec![(other, false, true), (known, false, true)])
        ),
        IdentityAction::Ask {
            retire: None,
            query: IdentityQuery::Fuzzy { minimum: 197_000, maximum: 203_000 },
        }
    );
    assert_eq!(
        identity_step(&observation, IdentityEvidence::Fuzzy { eligible: 2, matches: vec![known] }),
        IdentityAction::Decide(Some(known))
    );
    assert_eq!(
        identity_step(&observation, IdentityEvidence::Fuzzy { eligible: 33, matches: vec![known] }),
        IdentityAction::Decide(None)
    );
}

#[test]
fn only_missing_records_with_a_fingerprint_are_fuzzy_candidates() {
    let present = TrackId::new();
    let missing = TrackId::new();
    let gone = TrackId::new();
    let bare = TrackId::new();
    let rows = vec![
        (present, true, true, Some(1), Some(vec![9, 0, 0, 0])),
        (missing, false, true, Some(1), Some(vec![1, 0, 0, 0, 2, 0, 0, 0])),
        (gone, true, false, Some(1), Some(vec![3, 0, 0, 0])),
        (bare, false, false, None, None),
    ];
    let candidates = fuzzy_candidates(rows).expect("readable evidence");
    let ids: Vec<TrackId> = candidates.iter().map(|(id, _)| *id).collect();
    assert_eq!(ids, vec![missing, gone]);
    assert_eq!(candidates[0].1.items(), &[1, 2]);
    assert_eq!(candidates[1].1.algorithm(), 1);

    let broken = vec![
        (present, true, true, Some(1), Some(vec![1, 2, 3])),
        (missing, false, true, Some(1), Some(vec![1, 2, 3])),
    ];
    assert_eq!(fuzzy_candidates(broken).err(), Some(FingerprintBlobError::NotWholeItems));
}
