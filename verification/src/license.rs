//! The license documents and the status a document earns.

use vstd::prelude::*;
use vstd::utf8::encode_utf8;
use crate::date::{date_before, date_text, LicenseDate};
use crate::text::lower_hex_digit;
use crate::external::{
    ed25519_public_key_decodes, ed25519_strict_accepts, lower_hex_text, sha256_digest,
    standard_base64_decoded, trim_white_space, decode_standard_base64, encode_lower_hex,
    public_key_decodes, read_machine_uid, sha256, trim_text, verify_strict,
};
use crate::message::{canonical_message, canonical_payload_message};

verus! {

/// Outcome of evaluating a license. `Valid` is the only status that unlocks
/// the application; every other keeps it on the activation screen.
#[derive(Clone, Copy, Debug, PartialEq, Eq, Structural)]
pub enum LicenseStatus {
    Valid,
    /// No license document present yet (fresh install).
    Missing,
    /// The document is not a license document, or its signature text does
    /// not decode to a 64-byte signature.
    Malformed,
    /// The signature does not verify against the public key (forged or
    /// tampered payload).
    BadSignature,
    /// The signature is genuine but the license is bound to another machine.
    WrongMachine,
    /// Genuine license whose validity window has not started yet.
    NotYetValid,
    /// Genuine license whose due date has passed.
    Expired,
    /// The clock reads earlier than a day already seen: a likely attempt to
    /// wind the clock back to escape expiry.
    ClockTampered,
}

/// The statuses of a document whose signature and machine binding checked out.
pub open spec fn status_is_authentic(s: LicenseStatus) -> bool {
    s is Valid || s is Expired || s is NotYetValid
}

impl LicenseStatus {
    pub fn is_valid(self) -> (r: bool)
        ensures
            r == (self is Valid),
    {
        match self {
            LicenseStatus::Valid => true,
            _ => false,
        }
    }

    /// Whether the signature and the machine binding checked out, whatever
    /// the validity window says. Such documents are genuine and safe to keep.
    pub fn is_authentic(self) -> (r: bool)
        ensures
            r == status_is_authentic(self),
    {
        match self {
            LicenseStatus::Valid | LicenseStatus::Expired | LicenseStatus::NotYetValid => true,
            _ => false,
        }
    }
}

/// The signed part of a license.
#[derive(Clone, Debug)]
pub struct LicensePayload {
    pub license_id: String,
    pub licensee: String,
    pub machine_id_hash: String,
    pub issued_at: LicenseDate,
    pub expires_at: LicenseDate,
}

/// A license document: the payload and the base64 text of an Ed25519
/// signature over the payload's canonical JSON bytes.
#[derive(Clone, Debug)]
pub struct LicenseFile {
    pub payload: LicensePayload,
    pub signature: String,
}


/// The status of a document whose signature check came out `signature_genuine`,
/// in the order the checks are made: signature, machine binding, clock
/// rollback against the last day seen, then the validity window, whose first
/// and last days both count as valid.
pub open spec fn policy_status(
    payload: LicensePayload,
    signature_genuine: bool,
    machine_id: Seq<char>,
    today: LicenseDate,
    last_seen: Option<LicenseDate>,
) -> LicenseStatus {
    if !signature_genuine {
        LicenseStatus::BadSignature
    } else if payload.machine_id_hash@ != machine_id {
        LicenseStatus::WrongMachine
    } else if last_seen matches Some(seen) && date_before(today@, seen@) {
        LicenseStatus::ClockTampered
    } else if date_before(today@, payload.issued_at@) {
        LicenseStatus::NotYetValid
    } else if date_before(payload.expires_at@, today@) {
        LicenseStatus::Expired
    } else {
        LicenseStatus::Valid
    }
}

/// The signature bytes a document carries: its signature text, surrounding
/// white space ignored, decoded from base64.
pub open spec fn carried_signature(file: LicenseFile) -> Option<Seq<u8>> {
    standard_base64_decoded(trim_white_space(file.signature@))
}

/// Whether `public_key` accepts the signature the document carries over the
/// canonical message of its payload.
pub open spec fn signature_accepted(file: LicenseFile, public_key: Seq<u8>) -> bool {
    &&& carried_signature(file) matches Some(sig)
    &&& ed25519_strict_accepts(public_key, canonical_message(file.payload), sig)
}

/// The status of a parsed document checked against `public_key`.
pub open spec fn document_status(
    file: LicenseFile,
    public_key: Seq<u8>,
    machine_id: Seq<char>,
    today: LicenseDate,
    last_seen: Option<LicenseDate>,
) -> LicenseStatus {
    match carried_signature(file) {
        None => LicenseStatus::Malformed,
        Some(sig) => if sig.len() != 64 {
            LicenseStatus::Malformed
        } else {
            policy_status(
                file.payload,
                ed25519_strict_accepts(public_key, canonical_message(file.payload), sig),
                machine_id,
                today,
                last_seen,
            )
        },
    }
}

/// The status and payload reported for a document (`None`: the text was not
/// a license document) checked against `public_key`.
pub open spec fn license_verdict(
    file: Option<LicenseFile>,
    public_key: Seq<u8>,
    machine_id: Seq<char>,
    today: LicenseDate,
    last_seen: Option<LicenseDate>,
) -> (LicenseStatus, Option<LicensePayload>) {
    match file {
        None => (LicenseStatus::Malformed, None),
        Some(f) => (document_status(f, public_key, machine_id, today, last_seen), Some(f.payload)),
    }
}

/// The status a payload earns once its signature check came out
/// `signature_genuine`.
pub fn check_policy(
    payload: &LicensePayload,
    signature_genuine: bool,
    machine_id: &str,
    today: LicenseDate,
    last_seen: Option<LicenseDate>,
) -> (status: LicenseStatus)
    ensures
        status == policy_status(*payload, signature_genuine, machine_id@, today, last_seen),
{
    if !signature_genuine {
        return LicenseStatus::BadSignature;
    }
    let machine: String = machine_id.to_owned();
    if payload.machine_id_hash != machine {
        return LicenseStatus::WrongMachine;
    }
    if let Some(seen) = last_seen {
        if today.is_before(&seen) {
            return LicenseStatus::ClockTampered;
        }
    }
    if today.is_before(&payload.issued_at) {
        return LicenseStatus::NotYetValid;
    }
    if payload.expires_at.is_before(&today) {
        return LicenseStatus::Expired;
    }
    LicenseStatus::Valid
}

/// Verifies a license document against an explicit Ed25519 public key, this
/// machine's fingerprint and the clock. `file` is the parsed document, `None`
/// where the text was not a license document. `last_seen` is the newest day
/// the application has recorded (`None` skips the rollback check). The
/// payload is handed back whenever the document parsed, so that the licensee
/// and dates can be shown even for an expired license.
pub fn verify_with_key(
    file: Option<LicenseFile>,
    public_key: &[u8; 32],
    machine_id: &str,
    today: LicenseDate,
    last_seen: Option<LicenseDate>,
) -> (verdict: (LicenseStatus, Option<LicensePayload>))
    ensures
        verdict == license_verdict(file, public_key@, machine_id@, today, last_seen),
        public_key@ == embedded_public_key() ==> (verdict.0 is Malformed || verdict.0 is BadSignature),
{
    let file = match file {
        None => return (LicenseStatus::Malformed, None),
        Some(f) => f,
    };
    let trimmed = trim_text(file.signature.as_str());
    let sig = match decode_standard_base64(trimmed) {
        None => return (LicenseStatus::Malformed, Some(file.payload)),
        Some(b) => b,
    };
    if sig.len() != 64 {
        return (LicenseStatus::Malformed, Some(file.payload));
    }
    let message = canonical_payload_message(&file.payload);
    let genuine: bool = verify_strict(public_key.as_slice(), message.as_slice(), sig.as_slice());
    let status = check_policy(&file.payload, genuine, machine_id, today, last_seen);
    (status, Some(file.payload))
}

/// The Ed25519 public key embedded in the application (all zero bytes until a
/// real key is pasted in). No genuine license verifies against it, so a build
/// that keeps it refuses every license.
pub open spec fn embedded_public_key() -> Seq<u8> {
    Seq::new(32, |i: int| 0u8)
}

pub fn license_public_key() -> (key: [u8; 32])
    ensures
        key@ == embedded_public_key(),
{
    let key: [u8; 32] = [0u8; 32];
    assert(key@ =~= embedded_public_key());
    key
}

/// The verdict for a document checked against the embedded public key; an
/// embedded key that does not decode refuses everything with no payload.
pub open spec fn embedded_key_verdict(
    file: Option<LicenseFile>,
    machine_id: Seq<char>,
    today: LicenseDate,
    last_seen: Option<LicenseDate>,
) -> (LicenseStatus, Option<LicensePayload>) {
    if ed25519_public_key_decodes(embedded_public_key()) {
        license_verdict(file, embedded_public_key(), machine_id, today, last_seen)
    } else {
        (LicenseStatus::BadSignature, None)
    }
}

/// Verifies a license document against this machine and the clock, with the
/// public key embedded in the application.
pub fn verify_license(
    file: Option<LicenseFile>,
    machine_id: &str,
    today: LicenseDate,
    last_seen: Option<LicenseDate>,
) -> (verdict: (LicenseStatus, Option<LicensePayload>))
    ensures
        verdict == embedded_key_verdict(file, machine_id@, today, last_seen),
        verdict.0 is Malformed || verdict.0 is BadSignature,
{
    let key = license_public_key();
    if !public_key_decodes(key.as_slice()) {
        return (LicenseStatus::BadSignature, None);
    }
    verify_with_key(file, &key, machine_id, today, last_seen)
}


/// The status shown to the user interface: the status, whether it unlocks
/// the application, the machine fingerprint (shown on the lock screen so the
/// operator can request a license) and, when the document is authentic, its
/// licensee and dates as `YYYY-MM-DD`.
#[derive(Clone, Debug)]
pub struct LicenseStatusDto {
    pub status: LicenseStatus,
    pub valid: bool,
    pub licensee: Option<String>,
    pub issued_at: Option<String>,
    pub expires_at: Option<String>,
    pub machine_id: String,
}

pub open spec fn text_of(s: Option<String>) -> Option<Seq<char>> {
    match s {
        Some(t) => Some(t@),
        None => None,
    }
}

/// `dto` reports `status` for the machine `machine_id`, with the details of
/// `payload` where there is one and the status is authentic; a forged,
/// foreign or otherwise refused document shows no licensee and no dates.
pub open spec fn dto_reports(
    dto: LicenseStatusDto,
    status: LicenseStatus,
    machine_id: Seq<char>,
    payload: Option<LicensePayload>,
) -> bool {
    &&& dto.status == status
    &&& dto.valid == (status is Valid)
    &&& dto.machine_id@ == machine_id
    &&& match payload {
        Some(p) if status_is_authentic(status) => {
            &&& text_of(dto.licensee) == Some(p.licensee@)
            &&& text_of(dto.issued_at) == Some(date_text(p.issued_at@))
            &&& text_of(dto.expires_at) == Some(date_text(p.expires_at@))
        },
        _ => {
            &&& dto.licensee is None
            &&& dto.issued_at is None
            &&& dto.expires_at is None
        },
    }
}

impl LicenseStatusDto {
    pub fn build(status: LicenseStatus, machine_id: &str, payload: Option<&LicensePayload>) -> (dto:
        Self)
        ensures
            dto_reports(
                dto,
                status,
                machine_id@,
                match payload {
                    Some(p) => Some(*p),
                    None => None,
                },
            ),
            status_is_authentic(status) ==> match payload {
                Some(p) => {
                    &&& text_of(dto.licensee) == Some(p.licensee@)
                    &&& text_of(dto.issued_at) == Some(date_text(p.issued_at@))
                    &&& text_of(dto.expires_at) == Some(date_text(p.expires_at@))
                },
                None => dto.licensee is None && dto.expires_at is None,
            },
    {
        let authentic: bool = status.is_authentic();
        let (licensee, issued_at, expires_at) = match payload {
            Some(p) if authentic => (
                Some(p.licensee.clone()),
                Some(p.issued_at.to_text()),
                Some(p.expires_at.to_text()),
            ),
            _ => (None, None, None),
        };
        LicenseStatusDto {
            status,
            valid: status.is_valid(),
            licensee,
            issued_at,
            expires_at,
            machine_id: machine_id.to_owned(),
        }
    }
}

/// The license status decided once at start-up.
pub struct LicenseState {
    pub dto: LicenseStatusDto,
}

/// What start-up found where the license document should be.
pub enum LicenseDocument {
    /// No document could be read.
    Absent,
    /// A document was read but is not a license document.
    Unparsable,
    /// A license document was read.
    Parsed(LicenseFile),
}

/// The status and payload start-up reports for `document`.
pub open spec fn startup_verdict(
    document: LicenseDocument,
    machine_id: Seq<char>,
    today: LicenseDate,
    last_seen: Option<LicenseDate>,
) -> (LicenseStatus, Option<LicensePayload>) {
    match document {
        LicenseDocument::Absent => (LicenseStatus::Missing, None),
        LicenseDocument::Unparsable => embedded_key_verdict(None, machine_id, today, last_seen),
        LicenseDocument::Parsed(f) => embedded_key_verdict(Some(f), machine_id, today, last_seen),
    }
}

/// The start-up gate: the state to show and whether the application's data
/// may be opened, which it may only under a `Valid` license.
pub fn startup_gate(
    document: LicenseDocument,
    machine_id: &str,
    today: LicenseDate,
    last_seen: Option<LicenseDate>,
) -> (gate: (LicenseState, bool))
    ensures
        ({
            let (status, payload) = startup_verdict(document, machine_id@, today, last_seen);
            &&& dto_reports(gate.0.dto, status, machine_id@, payload)
            &&& gate.1 == (status is Valid)
        }),
        gate.1 == gate.0.dto.valid,
{
    let (status, payload) = match document {
        LicenseDocument::Absent => (LicenseStatus::Missing, None),
        LicenseDocument::Unparsable => verify_license(None, machine_id, today, last_seen),
        LicenseDocument::Parsed(f) => verify_license(Some(f), machine_id, today, last_seen),
    };
    let dto = LicenseStatusDto::build(status, machine_id, payload.as_ref());
    let unlocked: bool = status.is_valid();
    (LicenseState { dto }, unlocked)
}

/// The newest day seen once `today` has been seen: the later of the
/// recorded watermark and today. Recording it at every start keeps a later
/// clock rollback detectable.
pub open spec fn advanced_watermark(last_seen: Option<LicenseDate>, today: LicenseDate) -> LicenseDate {
    match last_seen {
        Some(seen) => if date_before(today@, seen@) { seen } else { today },
        None => today,
    }
}

/// The anti-rollback watermark to record after a start on `today`.
pub fn next_last_seen(last_seen: Option<LicenseDate>, today: LicenseDate) -> (seen: LicenseDate)
    ensures
        seen == advanced_watermark(last_seen, today),
        !date_before(seen@, today@),
        last_seen matches Some(s) ==> !date_before(seen@, s@),
{
    match last_seen {
        Some(s) => if today.is_before(&s) { s } else { today },
        None => today,
    }
}

/// The prefix that keeps this application's machine fingerprints apart from
/// other hashes of the same machine id.
pub open spec fn fingerprint_domain() -> Seq<char> {
    "paymentSchedule-license-v1:"@
}

/// The fingerprint of a machine whose operating system id is `machine_uid`:
/// the lowercase hexadecimal SHA-256 of the UTF-8 bytes of the domain prefix
/// followed by the id.
pub open spec fn fingerprint_text(machine_uid: Seq<char>) -> Seq<char> {
    lower_hex_text(sha256_digest(encode_utf8(fingerprint_domain() + machine_uid)))
}

/// The fingerprint of the machine whose operating system id is `machine_uid`.
pub fn fingerprint_of(machine_uid: &str) -> (fingerprint: String)
    ensures
        fingerprint@ == fingerprint_text(machine_uid@),
        fingerprint@ == lower_hex_text(
            sha256_digest(encode_utf8("paymentSchedule-license-v1:"@ + machine_uid@)),
        ),
        is_lower_hex_text(fingerprint@, 64),
{
    let mut input = String::new();
    input.append("paymentSchedule-license-v1:");
    input.append(machine_uid);
    assert(input@ =~= fingerprint_domain() + machine_uid@);
    let bytes = input.as_str().as_bytes_vec();
    let digest = sha256(bytes.as_slice());
    let fingerprint = encode_lower_hex(digest.as_slice());
    proof { lemma_lower_hex_text_shape(digest@); }
    fingerprint
}

/// `text` is `len` lowercase hexadecimal digits.
pub open spec fn is_lower_hex_text(text: Seq<char>, len: nat) -> bool {
    &&& text.len() == len
    &&& forall|i: int|
        0 <= i < text.len() ==> ('0' <= #[trigger] text[i] <= '9' || 'a' <= text[i] <= 'f')
}

/// The hexadecimal text of `bytes` is twice as long, made of lowercase digits.
pub proof fn lemma_lower_hex_text_shape(bytes: Seq<u8>)
    ensures
        is_lower_hex_text(lower_hex_text(bytes), 2 * bytes.len()),
    decreases bytes.len(),
{
    if bytes.len() > 0 {
        lemma_lower_hex_text_shape(bytes.drop_last());
        let t = lower_hex_text(bytes);
        let prefix = lower_hex_text(bytes.drop_last());
        let hi = bytes.last() / 16;
        let lo = bytes.last() % 16;
        assert(t == prefix + seq![lower_hex_digit(hi as int), lower_hex_digit(lo as int)]);
        assert forall|i: int| 0 <= i < t.len() implies ('0' <= #[trigger] t[i] <= '9' || 'a' <= t[i] <= 'f') by {
            if i < prefix.len() {
                assert(t[i] == prefix[i]);
            } else if i == prefix.len() {
                assert(t[i] == lower_hex_digit(hi as int));
            } else {
                assert(t[i] == lower_hex_digit(lo as int));
            }
        }
    }
}

/// The machine id a fingerprint is taken of: the id read from the operating
/// system, or `unknown-machine` when it could not be read.
pub open spec fn machine_id_text(read: Option<String>) -> Seq<char> {
    match read {
        Some(uid) => uid@,
        None => "unknown-machine"@,
    }
}

/// The fingerprint for what reading the machine id gave.
pub fn fingerprint_for_read(read: Option<String>) -> (fingerprint: String)
    ensures
        fingerprint@ == fingerprint_text(machine_id_text(read)),
        is_lower_hex_text(fingerprint@, 64),
{
    match read {
        Some(uid) => fingerprint_of(uid.as_str()),
        None => fingerprint_of("unknown-machine"),
    }
}

/// The stable fingerprint of this machine: `fingerprint_for_read` of the
/// operating system's machine id (the read is the only input, and what it
/// gives depends on the machine). The raw id is never exposed, only this
/// hash, which is what a license binds to.
pub fn machine_fingerprint() -> (fingerprint: String)
    ensures
        exists|read: Option<String>| fingerprint@ == #[trigger] fingerprint_text(machine_id_text(read)),
        is_lower_hex_text(fingerprint@, 64),
{
    let read = read_machine_uid();
    fingerprint_for_read(read)
}

/// An explicit truthy value of the bypass switch: `1` or `true`.
pub open spec fn is_truthy_switch(value: Seq<char>) -> bool {
    value =~= seq!['1'] || value =~= seq!['t', 'r', 'u', 'e']
}

/// Whether the development bypass of the license gate is on: only with debug
/// assertions compiled in, and only when the switch holds an explicit truthy
/// value. Debug assertions alone do not skip the license check.
pub fn bypass_decision(debug_build: bool, bypass_env: Option<&str>) -> (on: bool)
    ensures
        on == (debug_build && match bypass_env {
            Some(v) => is_truthy_switch(v@),
            None => false,
        }),
        on <==> (debug_build && match bypass_env {
            Some(v) => v@ == seq!['1'] || v@ == seq!['t', 'r', 'u', 'e'],
            None => false,
        }),
{
    if !debug_build {
        return false;
    }
    match bypass_env {
        None => false,
        Some(v) => {
            let n: usize = v.unicode_len();
            if n == 1 {
                let c0: char = v.get_char(0);
                let r: bool = c0 == '1';
                assert(r ==> v@ =~= seq!['1']);
                r
            } else if n == 4 {
                let c0: char = v.get_char(0);
                let c1: char = v.get_char(1);
                let c2: char = v.get_char(2);
                let c3: char = v.get_char(3);
                let r: bool = c0 == 't' && c1 == 'r' && c2 == 'u' && c3 == 'e';
                assert(r ==> v@ =~= seq!['t', 'r', 'u', 'e']);
                r
            } else {
                false
            }
        },
    }
}

} // verus!
