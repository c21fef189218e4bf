use sha2::{Digest, Sha256};
use base64::engine::general_purpose::STANDARD;
use base64::Engine;
use ed25519_dalek::{Signer, SigningKey};
use license_gate::date::LicenseDate;
use license_gate::license::{
    bypass_decision, check_policy, fingerprint_for_read, next_last_seen, fingerprint_of, machine_fingerprint,
    startup_gate,
    verify_license, verify_with_key, LicenseDocument, LicenseFile, LicensePayload, LicenseStatus,
    LicenseStatusDto,
};
use chrono::NaiveDate;
use serde::ser::SerializeStruct;

const MACHINE: &str = "test-machine-fingerprint";

fn day(s: &str) -> LicenseDate {
    let parts: Vec<&str> = s.split('-').collect();
    LicenseDate::new(
        parts[0].parse().unwrap(),
        parts[1].parse().unwrap(),
        parts[2].parse().unwrap(),
    )
    .unwrap()
}

/// Deterministic test signing key (never used in production).
fn signing_key() -> SigningKey {
    SigningKey::from_bytes(&[7u8; 32])
}

/// The payload as the issuing tool serializes it: a struct with the fields in
/// their declared order and the dates as chrono dates.
struct PayloadJson {
    license_id: String,
    licensee: String,
    machine_id_hash: String,
    issued_at: NaiveDate,
    expires_at: NaiveDate,
}

impl serde::Serialize for PayloadJson {
    fn serialize<S: serde::Serializer>(&self, serializer: S) -> Result<S::Ok, S::Error> {
        let mut st = serializer.serialize_struct("LicensePayload", 5)?;
        st.serialize_field("license_id", &self.license_id)?;
        st.serialize_field("licensee", &self.licensee)?;
        st.serialize_field("machine_id_hash", &self.machine_id_hash)?;
        st.serialize_field("issued_at", &self.issued_at)?;
        st.serialize_field("expires_at", &self.expires_at)?;
        st.end()
    }
}

fn chrono_day(d: LicenseDate) -> NaiveDate {
    NaiveDate::from_ymd_opt(d.year(), d.month(), d.day()).unwrap()
}

/// A license document signed with the given key over `serde_json::to_vec` of the payload.
fn make_license(signing: &SigningKey, payload: &LicensePayload) -> LicenseFile {
    let json = PayloadJson {
        license_id: payload.license_id.clone(),
        licensee: payload.licensee.clone(),
        machine_id_hash: payload.machine_id_hash.clone(),
        issued_at: chrono_day(payload.issued_at),
        expires_at: chrono_day(payload.expires_at),
    };
    let message = serde_json::to_vec(&json).unwrap();
    let sig = signing.sign(&message);
    LicenseFile { payload: payload.clone(), signature: STANDARD.encode(sig.to_bytes()) }
}

fn sample_payload() -> LicensePayload {
    LicensePayload {
        license_id: "L-1".into(),
        licensee: "Test Shop".into(),
        machine_id_hash: MACHINE.into(),
        issued_at: day("2026-01-01"),
        expires_at: day("2027-01-01"),
    }
}

fn verify(payload: &LicensePayload, today: &str, last_seen: Option<&str>) -> LicenseStatus {
    let signing = signing_key();
    let file = make_license(&signing, payload);
    verify_with_key(
        Some(file),
        &signing.verifying_key().to_bytes(),
        MACHINE,
        day(today),
        last_seen.map(day),
    )
    .0
}

#[test]
fn machine_fingerprint_is_stable_hex() {
    let a = machine_fingerprint();
    let b = machine_fingerprint();
    assert_eq!(a, b, "fingerprint must be stable within a run");
    assert_eq!(a.len(), 64, "sha256 hex is 64 chars");
    assert!(a.chars().all(|c| c.is_ascii_hexdigit()));
}

#[test]
fn valid_license_passes() {
    assert_eq!(verify(&sample_payload(), "2026-06-01", None), LicenseStatus::Valid);
}

#[test]
fn boundaries_are_inclusive() {
    assert_eq!(verify(&sample_payload(), "2026-01-01", None), LicenseStatus::Valid);
    assert_eq!(verify(&sample_payload(), "2027-01-01", None), LicenseStatus::Valid);
}

#[test]
fn expired_after_due_date() {
    assert_eq!(verify(&sample_payload(), "2027-01-02", None), LicenseStatus::Expired);
}

#[test]
fn not_yet_valid_before_issue() {
    assert_eq!(verify(&sample_payload(), "2025-12-31", None), LicenseStatus::NotYetValid);
}

#[test]
fn wrong_machine_rejected() {
    let mut p = sample_payload();
    p.machine_id_hash = "some-other-machine".into();
    assert_eq!(verify(&p, "2026-06-01", None), LicenseStatus::WrongMachine);
}

#[test]
fn clock_rollback_detected() {
    assert_eq!(
        verify(&sample_payload(), "2026-06-01", Some("2026-08-01")),
        LicenseStatus::ClockTampered
    );
    assert_eq!(verify(&sample_payload(), "2026-08-01", Some("2026-08-01")), LicenseStatus::Valid);
}

#[test]
fn malformed_file_is_rejected() {
    // A text that is not a license document reaches the check as no document.
    let (status, payload) = verify_with_key(
        None,
        &signing_key().verifying_key().to_bytes(),
        MACHINE,
        day("2026-06-01"),
        None,
    );
    assert_eq!(status, LicenseStatus::Malformed);
    assert!(payload.is_none());
}

#[test]
fn foreign_key_fails_signature() {
    let file = make_license(&signing_key(), &sample_payload());
    let other = SigningKey::from_bytes(&[9u8; 32]).verifying_key().to_bytes();
    let (status, _) = verify_with_key(Some(file), &other, MACHINE, day("2026-06-01"), None);
    assert_eq!(status, LicenseStatus::BadSignature);
}

#[test]
fn tampered_payload_breaks_signature() {
    let signing = signing_key();
    let mut file = make_license(&signing, &sample_payload());
    file.payload.expires_at = day("2099-01-01");
    let (status, _) = verify_with_key(
        Some(file),
        &signing.verifying_key().to_bytes(),
        MACHINE,
        day("2026-06-01"),
        None,
    );
    assert_eq!(status, LicenseStatus::BadSignature);
}

#[test]
fn embedded_placeholder_key_fails_closed() {
    let file = make_license(&signing_key(), &sample_payload());
    let (status, _) = verify_license(Some(file), MACHINE, day("2026-06-01"), None);
    assert_eq!(status, LicenseStatus::BadSignature);
}

#[test]
fn bypass_off_in_release_regardless_of_env() {
    assert!(!bypass_decision(false, Some("1")));
    assert!(!bypass_decision(false, Some("true")));
    assert!(!bypass_decision(false, None));
}

#[test]
fn bypass_requires_explicit_truthy_env_in_debug() {
    assert!(bypass_decision(true, Some("1")));
    assert!(bypass_decision(true, Some("true")));
    assert!(!bypass_decision(true, None));
    assert!(!bypass_decision(true, Some("0")));
    assert!(!bypass_decision(true, Some("yes")));
}

#[test]
fn status_predicates() {
    assert!(LicenseStatus::Valid.is_valid());
    assert!(!LicenseStatus::Expired.is_valid());
    assert!(LicenseStatus::Valid.is_authentic());
    assert!(LicenseStatus::Expired.is_authentic());
    assert!(LicenseStatus::NotYetValid.is_authentic());
    assert!(!LicenseStatus::WrongMachine.is_authentic());
    assert!(!LicenseStatus::BadSignature.is_authentic());
    assert!(!LicenseStatus::Missing.is_authentic());
    assert!(!LicenseStatus::ClockTampered.is_authentic());
}

#[test]
fn dto_carries_payload_details() {
    let p = sample_payload();
    let dto = LicenseStatusDto::build(LicenseStatus::Expired, MACHINE, Some(&p));
    assert!(!dto.valid);
    assert_eq!(dto.licensee.as_deref(), Some("Test Shop"));
    assert_eq!(dto.expires_at.as_deref(), Some("2027-01-01"));
    assert_eq!(dto.machine_id, MACHINE);

    let empty = LicenseStatusDto::build(LicenseStatus::Missing, MACHINE, None);
    assert!(empty.licensee.is_none());
    assert!(empty.expires_at.is_none());
}

#[test]
fn dto_issue_date_and_validity_flag() {
    let p = sample_payload();
    let dto = LicenseStatusDto::build(LicenseStatus::Valid, MACHINE, Some(&p));
    assert!(dto.valid);
    assert_eq!(dto.status, LicenseStatus::Valid);
    assert_eq!(dto.issued_at.as_deref(), Some("2026-01-01"));
}

#[test]
fn signature_text_with_surrounding_white_space_still_verifies() {
    let signing = signing_key();
    let mut file = make_license(&signing, &sample_payload());
    file.signature = format!("  \n{}\t\n", file.signature);
    let (status, payload) = verify_with_key(
        Some(file),
        &signing.verifying_key().to_bytes(),
        MACHINE,
        day("2026-06-01"),
        None,
    );
    assert_eq!(status, LicenseStatus::Valid);
    assert_eq!(payload.unwrap().licensee, "Test Shop");
}

#[test]
fn signature_text_not_base64_is_malformed_with_payload() {
    let signing = signing_key();
    let mut file = make_license(&signing, &sample_payload());
    file.signature = "!!not base64!!".to_string();
    let (status, payload) = verify_with_key(
        Some(file),
        &signing.verifying_key().to_bytes(),
        MACHINE,
        day("2026-06-01"),
        None,
    );
    assert_eq!(status, LicenseStatus::Malformed);
    assert_eq!(payload.unwrap().license_id, "L-1");
}

#[test]
fn signature_of_wrong_length_is_malformed() {
    let signing = signing_key();
    let mut file = make_license(&signing, &sample_payload());
    file.signature = STANDARD.encode([1u8; 63]);
    let (status, payload) = verify_with_key(
        Some(file),
        &signing.verifying_key().to_bytes(),
        MACHINE,
        day("2026-06-01"),
        None,
    );
    assert_eq!(status, LicenseStatus::Malformed);
    assert!(payload.is_some());
}

#[test]
fn bad_signature_keeps_the_payload() {
    let file = make_license(&signing_key(), &sample_payload());
    let other = SigningKey::from_bytes(&[9u8; 32]).verifying_key().to_bytes();
    let (status, payload) = verify_with_key(Some(file), &other, MACHINE, day("2026-06-01"), None);
    assert_eq!(status, LicenseStatus::BadSignature);
    assert_eq!(payload.unwrap().machine_id_hash, MACHINE);
}

#[test]
fn signature_is_checked_before_the_machine() {
    let mut p = sample_payload();
    p.machine_id_hash = "some-other-machine".into();
    let file = make_license(&signing_key(), &p);
    let other = SigningKey::from_bytes(&[9u8; 32]).verifying_key().to_bytes();
    let (status, _) = verify_with_key(Some(file), &other, MACHINE, day("2026-06-01"), None);
    assert_eq!(status, LicenseStatus::BadSignature);
}

#[test]
fn machine_is_checked_before_the_clock() {
    let mut p = sample_payload();
    p.machine_id_hash = "some-other-machine".into();
    assert_eq!(verify(&p, "2026-06-01", Some("2026-08-01")), LicenseStatus::WrongMachine);
}

#[test]
fn rollback_is_checked_before_the_window() {
    assert_eq!(
        verify(&sample_payload(), "2027-06-01", Some("2027-08-01")),
        LicenseStatus::ClockTampered
    );
}

#[test]
fn policy_alone_decides_from_the_signature_outcome() {
    let p = sample_payload();
    assert_eq!(check_policy(&p, false, MACHINE, day("2026-06-01"), None), LicenseStatus::BadSignature);
    assert_eq!(check_policy(&p, true, MACHINE, day("2026-06-01"), None), LicenseStatus::Valid);
    assert_eq!(check_policy(&p, true, "elsewhere", day("2026-06-01"), None), LicenseStatus::WrongMachine);
    assert_eq!(check_policy(&p, true, MACHINE, day("2027-01-02"), None), LicenseStatus::Expired);
}

#[test]
fn startup_gate_missing_document_stays_locked() {
    let (state, unlocked) = startup_gate(LicenseDocument::Absent, MACHINE, day("2026-06-01"), None);
    assert!(!unlocked);
    assert_eq!(state.dto.status, LicenseStatus::Missing);
    assert_eq!(state.dto.machine_id, MACHINE);
    assert!(state.dto.licensee.is_none());
}

#[test]
fn startup_gate_unparsable_document_is_refused() {
    let (state, unlocked) =
        startup_gate(LicenseDocument::Unparsable, MACHINE, day("2026-06-01"), None);
    assert!(!unlocked);
    assert!(!state.dto.valid);
    assert_ne!(state.dto.status, LicenseStatus::Valid);
}

#[test]
fn startup_gate_with_placeholder_key_stays_locked() {
    let file = make_license(&signing_key(), &sample_payload());
    let (state, unlocked) =
        startup_gate(LicenseDocument::Parsed(file), MACHINE, day("2026-06-01"), None);
    assert!(!unlocked);
    assert_eq!(state.dto.status, LicenseStatus::BadSignature);
}

#[test]
fn fingerprint_is_domain_separated_sha256_hex() {
    let mut hasher = Sha256::new();
    hasher.update(b"paymentSchedule-license-v1:");
    hasher.update("machine-1234".as_bytes());
    let expected = hex::encode(hasher.finalize());
    assert_eq!(fingerprint_of("machine-1234"), expected);
    assert_ne!(fingerprint_of("machine-1234"), fingerprint_of("machine-1235"));
    assert_eq!(fingerprint_of("unknown-machine").len(), 64);
}

#[test]
fn dto_hides_details_of_documents_that_are_not_authentic() {
    let p = sample_payload();
    for status in [
        LicenseStatus::BadSignature,
        LicenseStatus::WrongMachine,
        LicenseStatus::ClockTampered,
        LicenseStatus::Malformed,
    ] {
        let dto = LicenseStatusDto::build(status, MACHINE, Some(&p));
        assert!(!dto.valid);
        assert!(dto.licensee.is_none());
        assert!(dto.issued_at.is_none());
        assert!(dto.expires_at.is_none());
        assert_eq!(dto.machine_id, MACHINE);
    }
    let dto = LicenseStatusDto::build(LicenseStatus::NotYetValid, MACHINE, Some(&p));
    assert_eq!(dto.issued_at.as_deref(), Some("2026-01-01"));
}

#[test]
fn forged_license_shows_no_licensee_at_startup() {
    let file = make_license(&SigningKey::from_bytes(&[9u8; 32]), &sample_payload());
    let (state, _) = startup_gate(LicenseDocument::Parsed(file), MACHINE, day("2026-06-01"), None);
    assert_eq!(state.dto.status, LicenseStatus::BadSignature);
    assert!(state.dto.licensee.is_none());
}

#[test]
fn fingerprint_for_read_uses_the_read_id_or_the_fallback() {
    assert_eq!(fingerprint_for_read(Some("machine-1234".to_string())), fingerprint_of("machine-1234"));
    assert_eq!(fingerprint_for_read(None), fingerprint_of("unknown-machine"));
    assert_ne!(fingerprint_for_read(None), fingerprint_for_read(Some("machine-1234".to_string())));
}

#[test]
fn watermark_keeps_the_newest_day_seen() {
    assert_eq!(next_last_seen(None, day("2026-06-01")), day("2026-06-01"));
    assert_eq!(next_last_seen(Some(day("2026-05-01")), day("2026-06-01")), day("2026-06-01"));
    assert_eq!(next_last_seen(Some(day("2026-08-01")), day("2026-06-01")), day("2026-08-01"));
    let mark = next_last_seen(Some(day("2026-05-01")), day("2026-07-01"));
    assert_eq!(verify(&sample_payload(), "2026-06-30", Some("2026-07-01")), LicenseStatus::ClockTampered);
    assert_eq!(mark, day("2026-07-01"));
}

#[test]
fn placeholder_key_gives_only_malformed_or_bad_signature() {
    let zero = [0u8; 32];
    let file = make_license(&signing_key(), &sample_payload());
    let (status, _) = verify_with_key(Some(file), &zero, MACHINE, day("2026-06-01"), Some(day("2026-08-01")));
    assert_eq!(status, LicenseStatus::BadSignature);
    let mut p = sample_payload();
    p.machine_id_hash = "elsewhere".into();
    let (status, _) = verify_license(Some(make_license(&signing_key(), &p)), MACHINE, day("2026-06-01"), None);
    assert_eq!(status, LicenseStatus::BadSignature);
}
