use base64::Engine;
use ed25519_dalek::Signer;
use ed25519_dalek::SigningKey;
use license_gate::date::LicenseDate;
use license_gate::issuer::{
    decode_signing_seed, flag, key_array_elements, key_file_text, key_pair_files, plan_from_dates, parse_date_flag, plan_issue, sign_license,
    DateFlagError, IssueError, KeyFileError,
};
use license_gate::license::{verify_with_key, LicensePayload, LicenseStatus};

fn args(list: &[&str]) -> Vec<String> {
    list.iter().map(|s| s.to_string()).collect()
}

fn ymd(y: i32, m: u32, d: u32) -> LicenseDate {
    LicenseDate::new(y, m, d).unwrap()
}

#[test]
fn flag_takes_the_value_after_the_first_occurrence() {
    let a = args(&["--out", "a.psl", "--id", "X", "--out", "b.psl"]);
    assert_eq!(flag(&a, "--out").as_deref(), Some("a.psl"));
    assert_eq!(flag(&a, "--id").as_deref(), Some("X"));
    assert_eq!(flag(&a, "--key"), None);
}

#[test]
fn flag_as_last_argument_has_no_value() {
    let a = args(&["--id", "X", "--out"]);
    assert_eq!(flag(&a, "--out"), None);
    assert_eq!(flag(&[], "--out"), None);
}

#[test]
fn date_flag_parses_defaults_and_refuses() {
    let a = args(&["--expires", "2027-07-22", "--issued", "2026-13-01"]);
    let d = parse_date_flag(&a, "--expires", None).unwrap();
    assert_eq!((d.year(), d.month(), d.day()), (2027, 7, 22));
    match parse_date_flag(&a, "--issued", None) {
        Err(DateFlagError::Invalid(v)) => assert_eq!(v, "2026-13-01"),
        other => panic!("unexpected {:?}", other),
    }
    assert!(matches!(parse_date_flag(&a, "--other", None), Err(DateFlagError::Missing)));
    let fallback = ymd(2026, 7, 22);
    assert_eq!(parse_date_flag(&a, "--other", Some(fallback)).unwrap(), fallback);
}

#[test]
fn plan_issue_fills_in_defaults() {
    let a = args(&["--machine-id", "abc", "--expires", "2027-07-22"]);
    let plan = plan_issue(&a, ymd(2026, 7, 22)).unwrap();
    assert_eq!(plan.payload.machine_id_hash, "abc");
    assert_eq!(plan.payload.licensee, "");
    assert_eq!(plan.payload.license_id, "L-20260722");
    assert_eq!(plan.payload.issued_at, ymd(2026, 7, 22));
    assert_eq!(plan.payload.expires_at, ymd(2027, 7, 22));
    assert_eq!(plan.key_path, "private.key");
    assert_eq!(plan.out_path, "license.psl");
}

#[test]
fn plan_issue_takes_every_flag() {
    let a = args(&[
        "--machine-id", "abc", "--expires", "2027-07-22", "--issued", "2026-01-05",
        "--licensee", "Shop name", "--id", "L-0001", "--key", "k.key", "--out", "o.psl",
    ]);
    let plan = plan_issue(&a, ymd(2020, 1, 1)).unwrap();
    assert_eq!(plan.payload.licensee, "Shop name");
    assert_eq!(plan.payload.license_id, "L-0001");
    assert_eq!(plan.payload.issued_at, ymd(2026, 1, 5));
    assert_eq!(plan.key_path, "k.key");
    assert_eq!(plan.out_path, "o.psl");
}

#[test]
fn plan_issue_reports_problems_in_order() {
    assert!(matches!(
        plan_issue(&args(&["--expires", "nope"]), ymd(2026, 1, 1)),
        Err(IssueError::MissingMachineId)
    ));
    match plan_issue(&args(&["--machine-id", "m"]), ymd(2026, 1, 1)) {
        Err(IssueError::Date { flag, problem: DateFlagError::Missing }) => assert_eq!(flag, "--expires"),
        other => panic!("unexpected {:?}", other),
    }
    match plan_issue(&args(&["--machine-id", "m", "--expires", "2027-01-01", "--issued", "x"]), ymd(2026, 1, 1)) {
        Err(IssueError::Date { flag, problem: DateFlagError::Invalid(v) }) => {
            assert_eq!(flag, "--issued");
            assert_eq!(v, "x");
        }
        other => panic!("unexpected {:?}", other),
    }
    assert!(matches!(
        plan_issue(&args(&["--machine-id", "m", "--expires", "2025-12-31"]), ymd(2026, 1, 1)),
        Err(IssueError::ExpiresBeforeIssued)
    ));
}

#[test]
fn plan_issue_accepts_a_single_day_window() {
    let plan = plan_issue(&args(&["--machine-id", "m", "--expires", "2026-01-01"]), ymd(2026, 1, 1)).unwrap();
    assert_eq!(plan.payload.issued_at, plan.payload.expires_at);
}

#[test]
fn signing_seed_is_base64_of_32_bytes() {
    let text = base64::engine::general_purpose::STANDARD.encode([5u8; 32]);
    assert_eq!(decode_signing_seed(&format!("{}\n", text)).unwrap(), vec![5u8; 32]);
    assert_eq!(decode_signing_seed("%%%"), Err(KeyFileError::NotBase64));
    let short = base64::engine::general_purpose::STANDARD.encode([5u8; 31]);
    assert_eq!(decode_signing_seed(&short), Err(KeyFileError::WrongLength));
}

#[test]
fn issued_license_verifies_under_the_matching_key() {
    let seed = [7u8; 32];
    let payload = LicensePayload {
        license_id: "L-9".into(),
        licensee: "Quote \" and \\ and\nnewline".into(),
        machine_id_hash: "m".into(),
        issued_at: ymd(2026, 1, 1),
        expires_at: ymd(2026, 12, 31),
    };
    let file = sign_license(payload, &seed);
    let public = SigningKey::from_bytes(&seed).verifying_key().to_bytes();
    let (status, _) = verify_with_key(Some(file.clone()), &public, "m", ymd(2026, 6, 1), None);
    assert_eq!(status, LicenseStatus::Valid);
    let other = SigningKey::from_bytes(&[8u8; 32]).verifying_key().to_bytes();
    let (status, _) = verify_with_key(Some(file), &other, "m", ymd(2026, 6, 1), None);
    assert_eq!(status, LicenseStatus::BadSignature);
}

#[test]
fn issued_signature_matches_the_signing_crate() {
    let seed = [3u8; 32];
    let payload = LicensePayload {
        license_id: "L-1".into(),
        licensee: "Shop".into(),
        machine_id_hash: "m".into(),
        issued_at: ymd(2026, 1, 1),
        expires_at: ymd(2027, 1, 1),
    };
    let message = license_gate::message::canonical_payload_message(&payload);
    let expected = SigningKey::from_bytes(&seed).sign(&message).to_bytes();
    let file = sign_license(payload, &seed);
    assert_eq!(
        base64::engine::general_purpose::STANDARD.decode(&file.signature).unwrap(),
        expected.to_vec()
    );
}

#[test]
fn key_array_elements_are_decimal_and_comma_separated() {
    assert_eq!(key_array_elements(&[0, 7, 255, 10]), "0, 7, 255, 10");
    assert_eq!(key_array_elements(&[42]), "42");
    assert_eq!(key_array_elements(&[]), "");
}

#[test]
fn key_file_text_reads_back_as_the_same_key() {
    let seed = [11u8; 32];
    let text = key_file_text(&seed);
    assert_eq!(text, base64::engine::general_purpose::STANDARD.encode(seed));
    assert_eq!(decode_signing_seed(&text).unwrap(), seed.to_vec());
    assert_eq!(decode_signing_seed(&key_file_text(&[1u8; 16])), Err(KeyFileError::WrongLength));
}

#[test]
fn plan_from_dates_checks_the_window_and_fills_the_id() {
    let a = args(&["--licensee", "Shop"]);
    let plan = plan_from_dates(&a, "m".to_string(), ymd(2026, 3, 4), ymd(2027, 3, 4)).unwrap();
    assert_eq!(plan.payload.license_id, "L-20260304");
    assert_eq!(plan.payload.licensee, "Shop");
    assert_eq!(plan.payload.machine_id_hash, "m");
    assert!(matches!(
        plan_from_dates(&a, "m".to_string(), ymd(2026, 3, 4), ymd(2026, 3, 3)),
        Err(IssueError::ExpiresBeforeIssued)
    ));
}

#[test]
fn key_pair_files_belong_together() {
    let seed = [21u8; 32];
    let files = key_pair_files(&seed);
    let expected_public = SigningKey::from_bytes(&seed).verifying_key().to_bytes();
    assert_eq!(files.public_key, expected_public.to_vec());
    assert_eq!(decode_signing_seed(&files.private_text).unwrap(), seed.to_vec());
    assert_eq!(decode_signing_seed(&files.public_text).unwrap(), expected_public.to_vec());
    let restored = decode_signing_seed(&files.private_text).unwrap();
    let restored: [u8; 32] = restored.as_slice().try_into().unwrap();
    assert_eq!(SigningKey::from_bytes(&restored).verifying_key().to_bytes(), expected_public);
}
