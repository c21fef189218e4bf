//! Properties of the license gate that span its functions, proved over the
//! spec functions their contracts use.

use vstd::prelude::*;
use vstd::utf8::{decode_utf8, encode_utf8};
use crate::external::{
    ed25519_public_key_of, ed25519_signature, lower_hex_text, sha256_digest, ed25519_strict_accepts, is_standard_base64_char,
    lemma_base64_text_is_trimmed, standard_base64_decoded,
};
use crate::license::{
    advanced_watermark, carried_signature, document_status, dto_reports, fingerprint_text,
    is_truthy_switch, text_of, LicenseStatusDto, license_verdict, policy_status, signature_accepted,
    startup_verdict, status_is_authentic, LicenseDocument, LicenseFile, LicensePayload,
    LicenseStatus,
};
use crate::date::{date_before, date_text, is_calendar_date, lemma_date_text_injective, LicenseDate};
use crate::message::{
    canonical_message, canonical_payload_text, json_string, lemma_json_string_prefix_free,
    lemma_json_string_reads_back, read_json_string,
};

verus! {

/// Only a `Valid` status unlocks, and a valid license is an authentic one.
pub proof fn lemma_valid_is_authentic(s: LicenseStatus)
    ensures
        s is Valid ==> status_is_authentic(s),
{
}

/// Calendar order is a strict total order on days.
pub proof fn lemma_date_order(a: LicenseDate, b: LicenseDate, c: LicenseDate)
    ensures
        !date_before(a@, a@),
        date_before(a@, b@) && date_before(b@, c@) ==> date_before(a@, c@),
        date_before(a@, b@) || date_before(b@, a@) || a@ == b@,
        !(date_before(a@, b@) && date_before(b@, a@)),
{
}

/// Trust comes solely from the signature: a document is `Valid` only when
/// its signature text decodes to 64 bytes that the public key accepts over
/// the payload's canonical message, the license is bound to this machine,
/// the clock has not gone back behind the last day seen, and today lies in
/// the validity window.
pub proof fn lemma_valid_requires_every_check(
    file: LicenseFile,
    public_key: Seq<u8>,
    machine_id: Seq<char>,
    today: LicenseDate,
    last_seen: Option<LicenseDate>,
)
    ensures
        license_verdict(Some(file), public_key, machine_id, today, last_seen).0 is Valid ==> {
            &&& signature_accepted(file, public_key)
            &&& carried_signature(file) matches Some(sig) && sig.len() == 64
            &&& file.payload.machine_id_hash@ == machine_id
            &&& (last_seen matches Some(seen) ==> !date_before(today@, seen@))
            &&& !date_before(today@, file.payload.issued_at@)
            &&& !date_before(file.payload.expires_at@, today@)
        },
{
}

/// An authentic status (valid, expired or not yet valid) means the signature
/// and the machine binding checked out.
pub proof fn lemma_authentic_means_genuine_and_bound(
    file: LicenseFile,
    public_key: Seq<u8>,
    machine_id: Seq<char>,
    today: LicenseDate,
    last_seen: Option<LicenseDate>,
)
    ensures
        status_is_authentic(license_verdict(Some(file), public_key, machine_id, today, last_seen).0)
            ==> signature_accepted(file, public_key) && file.payload.machine_id_hash@ == machine_id,
{
}

/// The payload is reported exactly when the text was a license document, and
/// it is that document's payload; a text that is no license document is
/// `Malformed`.
pub proof fn lemma_payload_reported_iff_parsed(
    file: Option<LicenseFile>,
    public_key: Seq<u8>,
    machine_id: Seq<char>,
    today: LicenseDate,
    last_seen: Option<LicenseDate>,
)
    ensures
        ({
            let verdict = license_verdict(file, public_key, machine_id, today, last_seen);
            &&& verdict.1 is None <==> file is None
            &&& file matches Some(f) ==> verdict.1 == Some(f.payload)
            &&& file is None ==> verdict.0 is Malformed
        }),
{
}

/// A clock that reads earlier than a day already seen never unlocks, and no
/// genuine license for this machine is reported as anything but tampered then.
pub proof fn lemma_clock_rollback_is_refused(
    payload: LicensePayload,
    signature_genuine: bool,
    machine_id: Seq<char>,
    today: LicenseDate,
    seen: LicenseDate,
)
    requires
        date_before(today@, seen@),
    ensures
        !(policy_status(payload, signature_genuine, machine_id, today, Some(seen)) is Valid),
        signature_genuine && payload.machine_id_hash@ == machine_id ==> policy_status(
            payload,
            signature_genuine,
            machine_id,
            today,
            Some(seen),
        ) is ClockTampered,
{
}

/// The validity window includes both its first and its last day: a genuine
/// license for this machine, with no clock rollback, is `Valid` on every day
/// from its issue date to its due date, and only on those days.
pub proof fn lemma_window_is_inclusive(
    payload: LicensePayload,
    machine_id: Seq<char>,
    today: LicenseDate,
    last_seen: Option<LicenseDate>,
)
    requires
        payload.machine_id_hash@ == machine_id,
        last_seen matches Some(seen) ==> !date_before(today@, seen@),
    ensures
        policy_status(payload, true, machine_id, today, last_seen) is Valid <==> (!date_before(
            today@,
            payload.issued_at@,
        ) && !date_before(payload.expires_at@, today@)),
        today@ == payload.issued_at@ && !date_before(payload.expires_at@, payload.issued_at@)
            ==> policy_status(payload, true, machine_id, today, last_seen) is Valid,
        today@ == payload.expires_at@ && !date_before(payload.expires_at@, payload.issued_at@)
            ==> policy_status(payload, true, machine_id, today, last_seen) is Valid,
{
}

/// Start-up unlocks only for a license document read, parsed and `Valid`;
/// an absent document is reported `Missing`.
pub proof fn lemma_startup_unlocks_only_valid_documents(
    document: LicenseDocument,
    machine_id: Seq<char>,
    today: LicenseDate,
    last_seen: Option<LicenseDate>,
)
    ensures
        startup_verdict(document, machine_id, today, last_seen).0 is Valid ==> document is Parsed,
        document is Absent ==> startup_verdict(document, machine_id, today, last_seen).0 is Missing,
{
}

/// Issuing and verifying agree on what is signed: a document whose signature
/// text is the base64 of the Ed25519 signature made with `seed` over the
/// payload's canonical message (what `sign_license` produces) is judged on
/// exactly that signature over exactly that message.
pub proof fn lemma_issued_document_checks_its_own_signature(
    file: LicenseFile,
    seed: Seq<u8>,
    public_key: Seq<u8>,
    machine_id: Seq<char>,
    today: LicenseDate,
    last_seen: Option<LicenseDate>,
)
    requires
        standard_base64_decoded(file.signature@) == Some(
            ed25519_signature(seed, canonical_message(file.payload)),
        ),
        ed25519_signature(seed, canonical_message(file.payload)).len() == 64,
        forall|i: int|
            0 <= i < file.signature@.len() ==> is_standard_base64_char(#[trigger] file.signature@[i]),
    ensures
        document_status(file, public_key, machine_id, today, last_seen) == policy_status(
            file.payload,
            ed25519_strict_accepts(
                public_key,
                canonical_message(file.payload),
                ed25519_signature(seed, canonical_message(file.payload)),
            ),
            machine_id,
            today,
            last_seen,
        ),
{
    lemma_base64_text_is_trimmed(file.signature@);
}

/// Issue then verify: a document made by `sign_license` with `seed` for a
/// window whose due date is not before its issue date, checked under the
/// public key of that seed on its own machine with no rollback seen, is
/// `Valid` on every day of its window, whenever Ed25519 accepts the signature
/// that `seed` made over the canonical message (whether it always does is a
/// fact of the signature scheme that no contract here states).
pub proof fn lemma_issued_license_valid_under_issuer_key(
    file: LicenseFile,
    seed: Seq<u8>,
    today: LicenseDate,
)
    requires
        standard_base64_decoded(file.signature@) == Some(
            ed25519_signature(seed, canonical_message(file.payload)),
        ),
        ed25519_signature(seed, canonical_message(file.payload)).len() == 64,
        forall|i: int|
            0 <= i < file.signature@.len() ==> is_standard_base64_char(#[trigger] file.signature@[i]),
        ed25519_strict_accepts(
            ed25519_public_key_of(seed),
            canonical_message(file.payload),
            ed25519_signature(seed, canonical_message(file.payload)),
        ),
        !date_before(file.payload.expires_at@, file.payload.issued_at@),
        !date_before(today@, file.payload.issued_at@),
        !date_before(file.payload.expires_at@, today@),
    ensures
        license_verdict(
            Some(file),
            ed25519_public_key_of(seed),
            file.payload.machine_id_hash@,
            today,
            None,
        ).0 is Valid,
{
    lemma_issued_document_checks_its_own_signature(
        file,
        seed,
        ed25519_public_key_of(seed),
        file.payload.machine_id_hash@,
        today,
        None,
    );
}

/// A planned license (its due date not before its issue date) that the key
/// accepts is `Valid` on this machine from its issue day to its due day when
/// no clock rollback is seen.
pub proof fn lemma_planned_license_valid_over_its_window(
    payload: LicensePayload,
    today: LicenseDate,
)
    requires
        !date_before(payload.expires_at@, payload.issued_at@),
        !date_before(today@, payload.issued_at@),
        !date_before(payload.expires_at@, today@),
    ensures
        policy_status(payload, true, payload.machine_id_hash@, today, None) is Valid,
{
}


/// Equal sequences with a common prefix agree after it.
proof fn lemma_strip_prefix(p: Seq<char>, x: Seq<char>, y: Seq<char>)
    requires
        p + x == p + y,
    ensures
        x == y,
{
    assert(x =~= (p + x).subrange(p.len() as int, (p + x).len() as int));
    assert(y =~= (p + y).subrange(p.len() as int, (p + y).len() as int));
}

spec fn after_expires_key(p: LicensePayload) -> Seq<char> {
    json_string(date_text(p.expires_at@)) + "}"@
}

spec fn after_issued_key(p: LicensePayload) -> Seq<char> {
    json_string(date_text(p.issued_at@)) + (",\"expires_at\":"@ + after_expires_key(p))
}

spec fn after_machine_key(p: LicensePayload) -> Seq<char> {
    json_string(p.machine_id_hash@) + (",\"issued_at\":"@ + after_issued_key(p))
}

spec fn after_licensee_key(p: LicensePayload) -> Seq<char> {
    json_string(p.licensee@) + (",\"machine_id_hash\":"@ + after_machine_key(p))
}

spec fn after_license_id_key(p: LicensePayload) -> Seq<char> {
    json_string(p.license_id@) + (",\"licensee\":"@ + after_licensee_key(p))
}

/// The canonical text read from the front, field after field.
proof fn lemma_canonical_text_from_front(p: LicensePayload)
    ensures
        canonical_payload_text(p) == "{\"license_id\":"@ + after_license_id_key(p),
{
    let a = "{\"license_id\":"@;
    let b = json_string(p.license_id@);
    let c = ",\"licensee\":"@;
    let d = json_string(p.licensee@);
    let e = ",\"machine_id_hash\":"@;
    let f = json_string(p.machine_id_hash@);
    let g = ",\"issued_at\":"@;
    let h = json_string(date_text(p.issued_at@));
    let i = ",\"expires_at\":"@;
    let j = json_string(date_text(p.expires_at@));
    let k = "}"@;
    assert(canonical_payload_text(p) == a + b + c + d + e + f + g + h + i + j + k);
    assert(a + b + c + d + e + f + g + h + i + j + k =~= a + (b + (c + (d + (e + (f + (g + (h + (
    i + (j + k))))))))));
}

/// The signed message pins down the whole payload: two payloads (with
/// calendar dates, as every payload has) whose canonical messages are equal
/// agree on every field. A signature over the message therefore covers every
/// field, and changing any field changes what has to be signed.
pub proof fn lemma_canonical_message_determines_payload(p: LicensePayload, q: LicensePayload)
    requires
        is_calendar_date(p.issued_at@.0, p.issued_at@.1, p.issued_at@.2),
        is_calendar_date(p.expires_at@.0, p.expires_at@.1, p.expires_at@.2),
        is_calendar_date(q.issued_at@.0, q.issued_at@.1, q.issued_at@.2),
        is_calendar_date(q.expires_at@.0, q.expires_at@.1, q.expires_at@.2),
        canonical_message(p) == canonical_message(q),
    ensures
        p.license_id@ == q.license_id@,
        p.licensee@ == q.licensee@,
        p.machine_id_hash@ == q.machine_id_hash@,
        p.issued_at@ == q.issued_at@,
        p.expires_at@ == q.expires_at@,
{
    vstd::utf8::encode_utf8_decode_utf8(canonical_payload_text(p));
    vstd::utf8::encode_utf8_decode_utf8(canonical_payload_text(q));
    lemma_canonical_text_from_front(p);
    lemma_canonical_text_from_front(q);
    let l1 = "{\"license_id\":"@;
    let l2 = ",\"licensee\":"@;
    let l3 = ",\"machine_id_hash\":"@;
    let l4 = ",\"issued_at\":"@;
    let l5 = ",\"expires_at\":"@;
    let l6 = "}"@;
    let e5p = after_expires_key(p);
    let e5q = after_expires_key(q);
    let e4p = after_issued_key(p);
    let e4q = after_issued_key(q);
    let e3p = after_machine_key(p);
    let e3q = after_machine_key(q);
    let e2p = after_licensee_key(p);
    let e2q = after_licensee_key(q);
    let e1p = after_license_id_key(p);
    let e1q = after_license_id_key(q);
    lemma_strip_prefix(l1, e1p, e1q);
    lemma_json_string_prefix_free(p.license_id@, q.license_id@, l2 + e2p, l2 + e2q);
    lemma_strip_prefix(l2, e2p, e2q);
    lemma_json_string_prefix_free(p.licensee@, q.licensee@, l3 + e3p, l3 + e3q);
    lemma_strip_prefix(l3, e3p, e3q);
    lemma_json_string_prefix_free(p.machine_id_hash@, q.machine_id_hash@, l4 + e4p, l4 + e4q);
    lemma_strip_prefix(l4, e4p, e4q);
    lemma_json_string_prefix_free(
        date_text(p.issued_at@),
        date_text(q.issued_at@),
        l5 + e5p,
        l5 + e5q,
    );
    lemma_strip_prefix(l5, e5p, e5q);
    lemma_json_string_prefix_free(date_text(p.expires_at@), date_text(q.expires_at@), l6, l6);
    lemma_date_text_injective(p.issued_at@, q.issued_at@);
    lemma_date_text_injective(p.expires_at@, q.expires_at@);
}

/// Recording the watermark keeps rollbacks detectable: once a start on
/// `seen_day` has been recorded, a later start whose clock reads an earlier
/// day never unlocks, and a genuine license for this machine is reported as
/// tampered.
pub proof fn lemma_recorded_day_detects_later_rollback(
    payload: LicensePayload,
    signature_genuine: bool,
    machine_id: Seq<char>,
    last_seen: Option<LicenseDate>,
    seen_day: LicenseDate,
    today: LicenseDate,
)
    requires
        date_before(today@, seen_day@),
    ensures
        !(policy_status(
            payload,
            signature_genuine,
            machine_id,
            today,
            Some(advanced_watermark(last_seen, seen_day)),
        ) is Valid),
        signature_genuine && payload.machine_id_hash@ == machine_id ==> policy_status(
            payload,
            signature_genuine,
            machine_id,
            today,
            Some(advanced_watermark(last_seen, seen_day)),
        ) is ClockTampered,
{
}

/// What follows the literal `lit` at the front of `t`, if `t` starts with it.
pub open spec fn after_literal(t: Seq<char>, lit: Seq<char>) -> Option<Seq<char>> {
    if lit.len() <= t.len() && t.subrange(0, lit.len() as int) == lit {
        Some(t.skip(lit.len() as int))
    } else {
        None
    }
}

/// Reads `key` and then a JSON string literal at the front of `t`.
pub open spec fn read_keyed_string(t: Seq<char>, key: Seq<char>) -> Option<(Seq<char>, Seq<char>)> {
    match after_literal(t, key) {
        Some(r) => read_json_string(r),
        None => None,
    }
}

/// Reads a compact JSON object with the five payload keys in order, each
/// holding a string: the five string values, or `None` where `t` is not such
/// an object.
pub open spec fn read_payload_object(t: Seq<char>) -> Option<
    (Seq<char>, Seq<char>, Seq<char>, Seq<char>, Seq<char>),
> {
    match read_keyed_string(t, "{\"license_id\":"@) {
        None => None,
        Some((id, r1)) => match read_keyed_string(r1, ",\"licensee\":"@) {
            None => None,
            Some((licensee, r2)) => match read_keyed_string(r2, ",\"machine_id_hash\":"@) {
                None => None,
                Some((machine, r3)) => match read_keyed_string(r3, ",\"issued_at\":"@) {
                    None => None,
                    Some((issued, r4)) => match read_keyed_string(r4, ",\"expires_at\":"@) {
                        None => None,
                        Some((expires, r5)) => if r5 == "}"@ {
                            Some((id, licensee, machine, issued, expires))
                        } else {
                            None
                        },
                    },
                },
            },
        },
    }
}

proof fn lemma_keyed_string_reads_back(key: Seq<char>, value: Seq<char>, rest: Seq<char>)
    ensures
        read_keyed_string(key + (json_string(value) + rest), key) == Some((value, rest)),
{
    let t = key + (json_string(value) + rest);
    assert(t.subrange(0, key.len() as int) =~= key);
    assert(t.skip(key.len() as int) =~= json_string(value) + rest);
    lemma_json_string_reads_back(value, rest);
}

/// The canonical text is the compact JSON object of the payload: read as
/// JSON, it is an object with the keys `license_id`, `licensee`,
/// `machine_id_hash`, `issued_at` and `expires_at` in that order, each a
/// string holding that field's value (an empty licensee is the empty string,
/// the dates their `YYYY-MM-DD` text), with nothing before or after.
pub proof fn lemma_canonical_text_reads_back(p: LicensePayload)
    ensures
        read_payload_object(canonical_payload_text(p)) == Some(
            (
                p.license_id@,
                p.licensee@,
                p.machine_id_hash@,
                date_text(p.issued_at@),
                date_text(p.expires_at@),
            ),
        ),
{
    lemma_canonical_text_from_front(p);
    lemma_keyed_string_reads_back(
        "{\"license_id\":"@,
        p.license_id@,
        ",\"licensee\":"@ + after_licensee_key(p),
    );
    lemma_keyed_string_reads_back(
        ",\"licensee\":"@,
        p.licensee@,
        ",\"machine_id_hash\":"@ + after_machine_key(p),
    );
    lemma_keyed_string_reads_back(
        ",\"machine_id_hash\":"@,
        p.machine_id_hash@,
        ",\"issued_at\":"@ + after_issued_key(p),
    );
    lemma_keyed_string_reads_back(
        ",\"issued_at\":"@,
        date_text(p.issued_at@),
        ",\"expires_at\":"@ + after_expires_key(p),
    );
    lemma_keyed_string_reads_back(",\"expires_at\":"@, date_text(p.expires_at@), "}"@);
}

/// Calendar order is chronological: an earlier year comes first; within a
/// year, an earlier month; within a month, the smaller day number.
pub proof fn lemma_date_order_is_chronological(a: LicenseDate, b: LicenseDate)
    ensures
        a@.0 < b@.0 ==> date_before(a@, b@),
        a@.0 > b@.0 ==> !date_before(a@, b@),
        a@.0 == b@.0 && a@.1 < b@.1 ==> date_before(a@, b@),
        a@.0 == b@.0 && a@.1 > b@.1 ==> !date_before(a@, b@),
        a@.0 == b@.0 && a@.1 == b@.1 ==> (date_before(a@, b@) <==> a@.2 < b@.2),
{
}

/// The `YYYY-MM-DD` text of a day in the years 0 to 9999: four year digits,
/// a dash, two month digits, a dash, two day digits, each digit the ASCII
/// character of the corresponding decimal place.
pub proof fn lemma_date_text_digits(d: LicenseDate)
    requires
        is_calendar_date(d@.0, d@.1, d@.2),
        0 <= d@.0 <= 9999,
    ensures
        date_text(d@) == seq![
            (48 + d@.0 / 1000) as char,
            (48 + d@.0 / 100 % 10) as char,
            (48 + d@.0 / 10 % 10) as char,
            (48 + d@.0 % 10) as char,
            '-',
            (48 + d@.1 / 10) as char,
            (48 + d@.1 % 10) as char,
            '-',
            (48 + d@.2 / 10) as char,
            (48 + d@.2 % 10) as char,
        ],
{
    let y = d@.0 as nat;
    crate::text::lemma_two_digits(d@.1 as nat);
    crate::text::lemma_two_digits(d@.2 as nat);
    assert(crate::text::padded_decimal(y / 1000, 1) == seq![crate::text::decimal_digit((y / 1000) as int)]);
    assert(y / 10 / 10 == y / 100);
    assert(y / 100 / 10 == y / 1000);
    assert(crate::text::padded_decimal(y / 100, 2) == crate::text::padded_decimal(y / 1000, 1).push(
        crate::text::decimal_digit((y / 100 % 10) as int),
    ));
    assert(crate::text::padded_decimal(y / 10, 3) == crate::text::padded_decimal(y / 100, 2).push(
        crate::text::decimal_digit((y / 10 % 10) as int),
    ));
    assert(crate::text::padded_decimal(y, 4) == crate::text::padded_decimal(y / 10, 3).push(
        crate::text::decimal_digit((y % 10) as int),
    ));
    assert(crate::text::padded_decimal(y, 4) =~= seq![
        crate::text::decimal_digit((y / 1000) as int),
        crate::text::decimal_digit((y / 100 % 10) as int),
        crate::text::decimal_digit((y / 10 % 10) as int),
        crate::text::decimal_digit((y % 10) as int),
    ]);
    assert(date_text(d@) =~= seq![
        (48 + d@.0 / 1000) as char,
        (48 + d@.0 / 100 % 10) as char,
        (48 + d@.0 / 10 % 10) as char,
        (48 + d@.0 % 10) as char,
        '-',
        (48 + d@.1 / 10) as char,
        (48 + d@.1 % 10) as char,
        '-',
        (48 + d@.2 / 10) as char,
        (48 + d@.2 % 10) as char,
    ]);
}

/// For an authentic status the user interface shows the payload's own
/// licensee, issue date and due date, whichever authentic status it is.
pub proof fn lemma_dto_shows_payload_details_when_authentic(
    dto: LicenseStatusDto,
    status: LicenseStatus,
    machine_id: Seq<char>,
    p: LicensePayload,
)
    requires
        dto_reports(dto, status, machine_id, Some(p)),
        status_is_authentic(status),
    ensures
        text_of(dto.licensee) == Some(p.licensee@),
        text_of(dto.issued_at) == Some(date_text(p.issued_at@)),
        text_of(dto.expires_at) == Some(date_text(p.expires_at@)),
        dto.valid == (status is Valid),
        dto.machine_id@ == machine_id,
{
}

/// The fingerprint hashes the whole machine id: it is the lowercase hex of
/// the SHA-256 of the UTF-8 bytes of `paymentSchedule-license-v1:` followed
/// by the id, and those bytes decode back to the prefix and the entire id,
/// so ids that differ anywhere are hashed from different bytes.
pub proof fn lemma_fingerprint_hashes_the_whole_id(uid: Seq<char>, other: Seq<char>)
    ensures
        fingerprint_text(uid) == lower_hex_text(
            sha256_digest(encode_utf8("paymentSchedule-license-v1:"@ + uid)),
        ),
        exists|bytes: Seq<u8>|
            fingerprint_text(uid) == lower_hex_text(sha256_digest(bytes)) && #[trigger] decode_utf8(
                bytes,
            ) == "paymentSchedule-license-v1:"@ + uid,
        uid != other ==> encode_utf8("paymentSchedule-license-v1:"@ + uid) != encode_utf8(
            "paymentSchedule-license-v1:"@ + other,
        ),
{
    let bytes = encode_utf8("paymentSchedule-license-v1:"@ + uid);
    vstd::utf8::encode_utf8_decode_utf8("paymentSchedule-license-v1:"@ + uid);
    vstd::utf8::encode_utf8_decode_utf8("paymentSchedule-license-v1:"@ + other);
    assert(decode_utf8(bytes) == "paymentSchedule-license-v1:"@ + uid);
    if uid != other {
        let k = "paymentSchedule-license-v1:"@;
        if k + uid == k + other {
            assert(uid =~= (k + uid).skip(k.len() as int));
            assert(other =~= (k + other).skip(k.len() as int));
        }
    }
}

/// The development bypass opens only for the two explicit truthy values `1`
/// and `true`; any other value, `false` or `0` or `yes` among them, leaves
/// the license check on.
pub proof fn lemma_bypass_only_for_explicit_truthy_values(v: Seq<char>)
    ensures
        is_truthy_switch(v) <==> (v == seq!['1'] || v == seq!['t', 'r', 'u', 'e']),
        !is_truthy_switch(seq!['f', 'a', 'l', 's', 'e']),
        !is_truthy_switch(seq!['0']),
        !is_truthy_switch(seq!['y', 'e', 's']),
        !is_truthy_switch(Seq::empty()),
{
    assert(seq!['f', 'a', 'l', 's', 'e'] != seq!['t', 'r', 'u', 'e']);
    assert(seq!['0'][0] != seq!['1'][0]);
}

} // verus!
