//! The issuing side of licenses: reading the issuer's command-line flags,
//! planning a license from them, decoding the issuer's secret key and signing
//! a payload into a license document.

use vstd::prelude::*;
use crate::date::{compact_date_text, date_before, LicenseDate};
use crate::external::{
    ed25519_public_key_of, ed25519_signature, lemma_base64_text_is_trimmed, public_key_of, standard_base64_decoded, standard_base64_encoded, trim_white_space,
    ymd_date_parsed, decode_standard_base64, encode_standard_base64, parse_ymd_date, sign,
    trim_text,
};
use crate::license::{LicenseFile, LicensePayload};
use crate::message::{canonical_message, canonical_payload_message};
use crate::text::{padded_decimal, push_padded_decimal};

verus! {

/// The value after the first occurrence of `name` among `args[start..]`:
/// `None` when `name` does not occur there or is the last argument.
pub open spec fn flag_value_from(args: Seq<String>, name: Seq<char>, start: int) -> Option<
    Seq<char>,
>
    decreases args.len() - start,
{
    if start < 0 || start >= args.len() {
        None
    } else if args[start]@ == name {
        if start + 1 < args.len() {
            Some(args[start + 1]@)
        } else {
            None
        }
    } else {
        flag_value_from(args, name, start + 1)
    }
}

/// The value given to the flag `name`: the argument after its first occurrence.
pub open spec fn flag_value(args: Seq<String>, name: Seq<char>) -> Option<Seq<char>> {
    flag_value_from(args, name, 0)
}

/// Minimal `--flag value` reading: the value given to `name`, if any.
pub fn flag(args: &[String], name: &str) -> (value: Option<String>)
    ensures
        value is None <==> flag_value(args@, name@) is None,
        value matches Some(v) ==> flag_value(args@, name@) == Some(v@),
{
    let wanted: String = name.to_owned();
    let n: usize = args.len();
    let mut i: usize = 0;
    while i < n
        invariant
            n == args@.len(),
            i <= n,
            wanted@ == name@,
            flag_value(args@, name@) == flag_value_from(args@, name@, i as int),
        decreases n - i,
    {
        if args[i] == wanted {
            if i + 1 < n {
                return Some(args[i + 1].clone());
            } else {
                return None;
            }
        }
        i = i + 1;
    }
    None
}

/// Why a date flag gave no date.
#[derive(Clone, Debug)]
pub enum DateFlagError {
    /// The flag is absent and has no default.
    Missing,
    /// The value is not a `YYYY-MM-DD` date.
    Invalid(String),
}

/// The outcome of a date flag as plain values: the date, or `None` for a
/// missing flag and `Some(value)` for a value that is not a date.
pub open spec fn date_flag_result(
    args: Seq<String>,
    name: Seq<char>,
    default: Option<(int, int, int)>,
) -> Result<(int, int, int), Option<Seq<char>>> {
    match flag_value(args, name) {
        Some(v) => match ymd_date_parsed(v) {
            Some(d) => Ok(d),
            None => Err(Some(v)),
        },
        None => match default {
            Some(d) => Ok(d),
            None => Err(None),
        },
    }
}

pub open spec fn date_outcome_view(r: Result<LicenseDate, DateFlagError>) -> Result<
    (int, int, int),
    Option<Seq<char>>,
> {
    match r {
        Ok(d) => Ok(d@),
        Err(DateFlagError::Missing) => Err(None),
        Err(DateFlagError::Invalid(v)) => Err(Some(v@)),
    }
}

pub open spec fn date_view(d: Option<LicenseDate>) -> Option<(int, int, int)> {
    match d {
        Some(x) => Some(x@),
        None => None,
    }
}

/// The date given to the flag `name` (`YYYY-MM-DD`), or `default` when the
/// flag is absent.
pub fn parse_date_flag(args: &[String], name: &str, default: Option<LicenseDate>) -> (r: Result<
    LicenseDate,
    DateFlagError,
>)
    ensures
        date_outcome_view(r) == date_flag_result(args@, name@, date_view(default)),
{
    match flag(args, name) {
        Some(text) => match parse_ymd_date(text.as_str()) {
            Some((y, m, d)) => Ok(LicenseDate::new(y, m, d).unwrap()),
            None => Err(DateFlagError::Invalid(text)),
        },
        None => match default {
            Some(d) => Ok(d),
            None => Err(DateFlagError::Missing),
        },
    }
}

/// Why a license could not be planned from the issuer's flags.
#[derive(Clone, Debug)]
pub enum IssueError {
    /// `--machine-id` is absent.
    MissingMachineId,
    /// A date flag gave no date.
    Date { flag: String, problem: DateFlagError },
    /// The due date is before the issue date.
    ExpiresBeforeIssued,
}

/// A license to issue: its payload, the file holding the issuer's secret key
/// and the file to write the license to.
#[derive(Clone, Debug)]
pub struct IssuePlan {
    pub payload: LicensePayload,
    pub key_path: String,
    pub out_path: String,
}

/// The value of `name`, or `default` when it is absent.
pub open spec fn flag_or(args: Seq<String>, name: Seq<char>, default: Seq<char>) -> Seq<char> {
    match flag_value(args, name) {
        Some(v) => v,
        None => default,
    }
}

/// The license id given when `--id` is absent: `L-` and the issue date as `YYYYMMDD`.
pub open spec fn default_license_id(issued: (int, int, int)) -> Seq<char> {
    "L-"@ + compact_date_text(issued)
}

/// `plan` carries the payload and paths the issuer's flags ask for, with the
/// dates `issued` and `expires`.
pub open spec fn plan_matches(
    plan: IssuePlan,
    args: Seq<String>,
    machine_id: Seq<char>,
    issued: (int, int, int),
    expires: (int, int, int),
) -> bool {
    &&& plan.payload.machine_id_hash@ == machine_id
    &&& plan.payload.issued_at@ == issued
    &&& plan.payload.expires_at@ == expires
    &&& plan.payload.licensee@ == flag_or(args, "--licensee"@, Seq::empty())
    &&& plan.payload.license_id@ == flag_or(args, "--id"@, default_license_id(issued))
    &&& plan.key_path@ == flag_or(args, "--key"@, "private.key"@)
    &&& plan.out_path@ == flag_or(args, "--out"@, "license.psl"@)
}

/// The error `e` reports the date flag `name` with the outcome `outcome`.
pub open spec fn reports_date_flag(e: IssueError, name: Seq<char>, outcome: Option<Seq<char>>) -> bool {
    match e {
        IssueError::Date { flag, problem } => flag@ == name && date_outcome_view(Err(problem)) == Err::<
            (int, int, int),
            Option<Seq<char>>,
        >(outcome),
        _ => false,
    }
}

/// The plan for a license with the given machine and dates; the other
/// fields come from the flags with their defaults. A due date before the
/// issue date is refused.
pub fn plan_from_dates(
    args: &[String],
    machine_id: String,
    issued: LicenseDate,
    expires: LicenseDate,
) -> (r: Result<IssuePlan, IssueError>)
    ensures
        date_before(expires@, issued@) ==> r matches Err(IssueError::ExpiresBeforeIssued),
        !date_before(expires@, issued@) ==> (r matches Ok(plan) && plan_matches(
            plan,
            args@,
            machine_id@,
            issued@,
            expires@,
        )),
{
    if expires.is_before(&issued) {
        return Err(IssueError::ExpiresBeforeIssued);
    }
    let licensee = match flag(args, "--licensee") {
        Some(v) => v,
        None => String::new(),
    };
    let license_id = match flag(args, "--id") {
        Some(v) => v,
        None => {
            let mut id = String::new();
            id.append("L-");
            let compact = issued.to_compact_text();
            id.append(compact.as_str());
            id
        },
    };
    let key_path = match flag(args, "--key") {
        Some(v) => v,
        None => "private.key".to_owned(),
    };
    let out_path = match flag(args, "--out") {
        Some(v) => v,
        None => "license.psl".to_owned(),
    };
    let payload = LicensePayload {
        license_id,
        licensee,
        machine_id_hash: machine_id,
        issued_at: issued,
        expires_at: expires,
    };
    Ok(IssuePlan { payload, key_path, out_path })
}

/// Plans a license from the issuer's flags: `--machine-id` (required),
/// `--expires` (required), `--issued` (default `today`), `--licensee`
/// (default empty), `--id` (default `L-YYYYMMDD` of the issue date), `--key`
/// (default `private.key`) and `--out` (default `license.psl`). Problems are
/// reported in that order; a due date before the issue date is refused.
pub fn plan_issue(args: &[String], today: LicenseDate) -> (r: Result<IssuePlan, IssueError>)
    ensures
        match flag_value(args@, "--machine-id"@) {
            None => r matches Err(IssueError::MissingMachineId),
            Some(machine_id) => match date_flag_result(args@, "--expires"@, None) {
                Err(outcome) => r matches Err(e) && reports_date_flag(e, "--expires"@, outcome),
                Ok(expires) => match date_flag_result(args@, "--issued"@, Some(today@)) {
                    Err(outcome) => r matches Err(e) && reports_date_flag(e, "--issued"@, outcome),
                    Ok(issued) => if date_before(expires, issued) {
                        r matches Err(IssueError::ExpiresBeforeIssued)
                    } else {
                        r matches Ok(plan) && plan_matches(plan, args@, machine_id, issued, expires)
                    },
                },
            },
        },
        r matches Ok(plan) ==> !date_before(plan.payload.expires_at@, plan.payload.issued_at@),
{
    let machine_id = match flag(args, "--machine-id") {
        Some(m) => m,
        None => return Err(IssueError::MissingMachineId),
    };
    let expires = match parse_date_flag(args, "--expires", None) {
        Ok(d) => d,
        Err(problem) => return Err(IssueError::Date { flag: "--expires".to_owned(), problem }),
    };
    let issued = match parse_date_flag(args, "--issued", Some(today)) {
        Ok(d) => d,
        Err(problem) => return Err(IssueError::Date { flag: "--issued".to_owned(), problem }),
    };
    plan_from_dates(args, machine_id, issued, expires)
}

/// Why the issuer's key file did not give a key.
#[derive(Clone, Copy, Debug, PartialEq, Eq, Structural)]
pub enum KeyFileError {
    /// The text, white space ignored, is not base64.
    NotBase64,
    /// The decoded key is not 32 bytes long.
    WrongLength,
}

/// The key a key file holds: its text, surrounding white space ignored,
/// decoded from base64, which must give 32 bytes.
pub open spec fn key_text_seed(text: Seq<char>) -> Result<Seq<u8>, KeyFileError> {
    match standard_base64_decoded(trim_white_space(text)) {
        None => Err(KeyFileError::NotBase64),
        Some(bytes) => if bytes.len() == 32 {
            Ok(bytes)
        } else {
            Err(KeyFileError::WrongLength)
        },
    }
}

pub open spec fn seed_outcome_view(r: Result<Vec<u8>, KeyFileError>) -> Result<Seq<u8>, KeyFileError> {
    match r {
        Ok(v) => Ok(v@),
        Err(e) => Err(e),
    }
}

/// The 32-byte secret key held in the issuer's key file: base64 text,
/// surrounding white space ignored.
pub fn decode_signing_seed(text: &str) -> (r: Result<Vec<u8>, KeyFileError>)
    ensures
        seed_outcome_view(r) == key_text_seed(text@),
{
    let trimmed = trim_text(text);
    match decode_standard_base64(trimmed) {
        None => Err(KeyFileError::NotBase64),
        Some(bytes) => if bytes.len() == 32 {
            Ok(bytes)
        } else {
            Err(KeyFileError::WrongLength)
        },
    }
}

/// The text of a key file holding `key`: its base64. A 32-byte key written
/// this way is read back unchanged by `decode_signing_seed`.
pub fn key_file_text(key: &[u8]) -> (text: String)
    requires
        key@.len() <= usize::MAX / 2,
    ensures
        text@ == standard_base64_encoded(key@),
        key@.len() == 32 ==> key_text_seed(text@) == Ok::<Seq<u8>, KeyFileError>(key@),
{
    let text = encode_standard_base64(key);
    proof { lemma_base64_text_is_trimmed(text@); }
    text
}

/// The two key files of an issuer's key pair and the public key itself.
#[derive(Clone, Debug)]
pub struct KeyPairFiles {
    /// The text of the secret key file.
    pub private_text: String,
    /// The text of the public key file.
    pub public_text: String,
    /// The 32 bytes of the public key.
    pub public_key: Vec<u8>,
}

/// The key files for the key pair whose secret is `seed`: each is the base64
/// of its key. The secret file reads back as `seed` and the public file as
/// the public key of that same seed, so the two files belong together.
pub fn key_pair_files(seed: &[u8]) -> (files: KeyPairFiles)
    requires
        seed@.len() == 32,
    ensures
        files.public_key@ == ed25519_public_key_of(seed@),
        files.private_text@ == standard_base64_encoded(seed@),
        files.public_text@ == standard_base64_encoded(files.public_key@),
        key_text_seed(files.private_text@) == Ok::<Seq<u8>, KeyFileError>(seed@),
        key_text_seed(files.public_text@) == Ok::<Seq<u8>, KeyFileError>(
            ed25519_public_key_of(seed@),
        ),
{
    let private_text = key_file_text(seed);
    let public_key = public_key_of(seed);
    let public_text = key_file_text(public_key.as_slice());
    KeyPairFiles { private_text, public_text, public_key }
}

/// The signature text a license document carries for `payload` signed with
/// the secret key `seed`: the base64 of the Ed25519 signature over the
/// payload's canonical message.
pub open spec fn issued_signature_text(payload: LicensePayload, seed: Seq<u8>) -> Seq<char> {
    standard_base64_encoded(ed25519_signature(seed, canonical_message(payload)))
}

/// Signs `payload` with the 32-byte secret key `seed` into a license document.
pub fn sign_license(payload: LicensePayload, seed: &[u8]) -> (file: LicenseFile)
    requires
        seed@.len() == 32,
    ensures
        file.payload == payload,
        file.signature@ == issued_signature_text(payload, seed@),
        standard_base64_decoded(file.signature@) == Some(
            ed25519_signature(seed@, canonical_message(payload)),
        ),
        ed25519_signature(seed@, canonical_message(payload)).len() == 64,
        forall|i: int|
            0 <= i < file.signature@.len() ==> crate::external::is_standard_base64_char(
                #[trigger] file.signature@[i],
            ),
{
    let message = canonical_payload_message(&payload);
    let signature = sign(seed, message.as_slice());
    let text = encode_standard_base64(signature.as_slice());
    LicenseFile { payload, signature: text }
}

/// The bytes written as Rust array elements: decimal numbers separated by `, `.
pub open spec fn decimal_list(bytes: Seq<u8>) -> Seq<char>
    decreases bytes.len(),
{
    if bytes.len() == 0 {
        Seq::empty()
    } else if bytes.len() == 1 {
        padded_decimal(bytes[0] as nat, 1)
    } else {
        decimal_list(bytes.drop_last()) + ", "@ + padded_decimal(bytes.last() as nat, 1)
    }
}

/// The elements of a Rust array literal holding `key`, for pasting a public
/// key into the application's source.
pub fn key_array_elements(key: &[u8]) -> (text: String)
    ensures
        text@ == decimal_list(key@),
{
    let mut text = String::new();
    let n: usize = key.len();
    let mut i: usize = 0;
    while i < n
        invariant
            n == key@.len(),
            i <= n,
            text@ == decimal_list(key@.take(i as int)),
        decreases n - i,
    {
        if i > 0 {
            text.append(", ");
        }
        push_padded_decimal(&mut text, key[i] as u32, 1);
        assert(key@.take(i + 1).drop_last() =~= key@.take(i as int));
        assert(text@ =~= decimal_list(key@.take(i + 1)));
        i = i + 1;
    }
    assert(key@.take(n as int) =~= key@);
    text
}

} // verus!
