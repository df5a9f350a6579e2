use bletchmame::appstate::AuditOutcome;
use bletchmame::assethash::AssetHash;
use bletchmame::audit::audit_job_outcome;
use bletchmame::audit::audit_candidates;
use bletchmame::audit::entry_name_by_crc;
use bletchmame::audit::found_audit_result;
use bletchmame::audit::hash_required;
use bletchmame::audit::not_found_audit_result;
use bletchmame::audit::ArchiveEntry;
use bletchmame::audit::Asset;
use bletchmame::audit::AssetKind;
use bletchmame::audit::AssetLocation;
use bletchmame::audit::AssetStatus;
use bletchmame::audit::AuditMessage;
use bletchmame::audit::AuditResult;
use bletchmame::audit::AuditSeverity;
use bletchmame::audit::DeviceType;
use bletchmame::audit::PathType;
use bletchmame::audit::SearchPaths;

fn hash(crc: &str) -> AssetHash {
    AssetHash::from_hex_strings(Some(crc), None).unwrap()
}

#[test]
fn found_audit_result_findings() {
    let ok = found_audit_result(
        "roms/pacman/pacman.6e".to_string(),
        PathType::File,
        Some(4096),
        4096,
        &hash("C1E6AB10"),
        Some(hash("C1E6AB10")),
        AssetStatus::Good,
    );
    assert_eq!(Some(("roms/pacman/pacman.6e".to_string(), PathType::File)), ok.path);
    assert!(ok.messages.is_empty());
    assert_eq!(AuditSeverity::Info, ok.severity());

    let bad = found_audit_result(
        "x".to_string(),
        PathType::Zip,
        Some(4096),
        2048,
        &hash("C1E6AB10"),
        Some(hash("DEADBEEF")),
        AssetStatus::BadDump,
    );
    assert_eq!(
        vec![
            AuditMessage::WrongLength { expected: 4096, found: 2048 },
            AuditMessage::WrongChecksums { expected: hash("C1E6AB10"), found: hash("DEADBEEF") },
            AuditMessage::NeedsRedump,
        ],
        bad.messages
    );
    assert_eq!(AuditSeverity::Warning, bad.severity());
}

#[test]
fn not_found_results() {
    let r = not_found_audit_result(AssetStatus::NoDump, false);
    assert_eq!(AuditResult { path: None, messages: vec![AuditMessage::NotFoundNoGoodDump] }, r);
    assert_eq!(AuditSeverity::Fail, r.severity());
    assert_eq!(vec![AuditMessage::NotFound], not_found_audit_result(AssetStatus::Good, false).messages);
    let optional = not_found_audit_result(AssetStatus::BadDump, true);
    assert_eq!(vec![AuditMessage::NotFoundButOptional], optional.messages);
    assert_eq!(AuditSeverity::Info, optional.severity());
    assert_eq!(AuditSeverity::Info, AuditResult::default().severity());
}

#[test]
fn hash_required_cases() {
    assert!(!hash_required(&AssetHash::default()));
    assert!(hash_required(&hash("00000000")));
}

#[test]
fn audit_candidates_order() {
    let names = AssetLocation::MachinePaths(vec!["pacman".to_string(), "puckman".to_string()]);
    let (which, candidates) = audit_candidates(AssetKind::Rom, &names, 2, 5);
    assert_eq!(SearchPaths::Roms, which);
    assert_eq!(2 * 2 * 3, candidates.len());
    assert_eq!((0, 0, PathType::File), (candidates[0].machine_index, candidates[0].path_index, candidates[0].path_type));
    assert_eq!((0, 0, PathType::Zip), (candidates[1].machine_index, candidates[1].path_index, candidates[1].path_type));
    assert_eq!((0, 1, PathType::File), (candidates[3].machine_index, candidates[3].path_index, candidates[3].path_type));
    assert_eq!((1, 1, PathType::SevenZ), (candidates[11].machine_index, candidates[11].path_index, candidates[11].path_type));

    let (which, candidates) = audit_candidates(AssetKind::Disk, &names, 2, 5);
    assert_eq!(SearchPaths::Roms, which);
    assert_eq!(4, candidates.len());
    let (which, candidates) = audit_candidates(AssetKind::Sample, &names, 2, 1);
    assert_eq!(SearchPaths::Samples, which);
    assert_eq!(6, candidates.len());
    let (which, candidates) =
        audit_candidates(AssetKind::ImageFile(DeviceType::Floppy), &AssetLocation::Absolute("/x.dsk".to_string()), 2, 1);
    assert_eq!(SearchPaths::NoPaths, which);
    assert!(candidates.is_empty());
}

#[test]
fn audit_message_texts() {
    assert_eq!(None, PathType::File.archive_extension());
    assert_eq!(Some("zip"), PathType::Zip.archive_extension());
    assert_eq!(Some("7z"), PathType::SevenZ.archive_extension());
    let texts: Vec<String> = [
        AuditMessage::NotFound,
        AuditMessage::WrongLength { expected: 10, found: 3 },
        AuditMessage::WrongChecksums { expected: hash("0000000A"), found: hash("0000000B") },
    ]
    .iter()
    .map(|m| m.to_display_string())
    .collect();
    assert_eq!("NOT FOUND", texts[0]);
    assert_eq!("WRONG LENGTH (expected: 10 found 3)", texts[1]);
    assert_eq!("WRONG CHECKSUMS EXPECTED CRC(0000000a) FOUND CRC(0000000b)", texts[2]);
}

#[test]
fn entry_name_by_crc_cases() {
    let entries = vec![
        ArchiveEntry { name: "dir/".to_string(), has_stream: false, has_crc: true, crc: 0x1234 },
        ArchiveEntry { name: "a.bin".to_string(), has_stream: true, has_crc: false, crc: 0x1234 },
        ArchiveEntry { name: "b.bin".to_string(), has_stream: true, has_crc: true, crc: 0x1234 },
        ArchiveEntry { name: "c.bin".to_string(), has_stream: true, has_crc: true, crc: 0x1234 },
    ];
    assert_eq!(Some("b.bin".to_string()), entry_name_by_crc(&entries, Some(0x1234)));
    assert_eq!(None, entry_name_by_crc(&entries, Some(0x9999)));
    assert_eq!(None, entry_name_by_crc(&entries, None));
}

#[test]
fn audit_job_outcomes() {
    let asset = |name: &str| Asset {
        kind: AssetKind::Rom,
        name: name.to_string(),
        size: Some(16),
        location: AssetLocation::MachinePaths(vec!["pacman".to_string()]),
        asset_hash: AssetHash { crc: Some(0x1234), sha1: None },
        status: AssetStatus::Good,
        is_optional: false,
    };
    let good = AuditResult { path: None, messages: vec![AuditMessage::NotFoundButOptional] };
    let warned = AuditResult { path: None, messages: vec![AuditMessage::WrongLength { expected: 16, found: 8 }] };
    let failed = AuditResult { path: None, messages: vec![AuditMessage::NotFound] };
    assert_eq!(AuditOutcome::Success, audit_job_outcome(vec![], false));
    assert_eq!(
        AuditOutcome::Success,
        audit_job_outcome(vec![(asset("a"), good.clone()), (asset("b"), warned.clone())], false)
    );
    let items = vec![(asset("a"), good.clone()), (asset("b"), failed), (asset("c"), warned)];
    assert_eq!(AuditOutcome::Failed(items.clone()), audit_job_outcome(items, false));
    assert_eq!(AuditOutcome::Cancelled, audit_job_outcome(vec![(asset("a"), good)], true));
}

#[test]
fn severity_ignores_order_and_never_drops() {
    let result = |messages: Vec<AuditMessage>| AuditResult { path: None, messages };
    let wrong_length = AuditMessage::WrongLength { expected: 1, found: 2 };
    let a = result(vec![AuditMessage::NeedsRedump, wrong_length.clone()]);
    let b = result(vec![wrong_length.clone(), AuditMessage::NeedsRedump]);
    assert_eq!(AuditSeverity::Warning, a.severity());
    assert_eq!(a.severity(), b.severity());
    let c = result(vec![wrong_length.clone(), AuditMessage::NotFound, AuditMessage::NeedsRedump]);
    assert_eq!(AuditSeverity::Fail, c.severity());
    let d = result(vec![AuditMessage::NoGoodDump, AuditMessage::NeedsRedump, wrong_length]);
    assert_eq!(AuditSeverity::Warning, d.severity());
    assert_eq!(AuditSeverity::Info, result(vec![]).severity());
}
