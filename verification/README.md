# license_gate

Offline license verification for a desktop application, verified with Verus.

A license is a JSON document holding a payload (license id, licensee, the
machine fingerprint it is bound to, issue and due dates) and the base64 text of
an Ed25519 signature over the payload's canonical compact JSON bytes. The
application accepts a license only when the signature verifies against its
embedded public key, the license is bound to this machine, the clock has not
been wound back behind the last day seen, and today lies within the validity
window (both ends included).

Layout:

- `src/date.rs` — calendar days, their order and ISO 8601 text.
- `src/text.rs` — digits and character-level string building.
- `src/message.rs` — the canonical JSON text and bytes of a payload.
- `src/license.rs` — statuses, documents, verification, the status shown to
  the user interface, the start-up decision, the machine fingerprint and the
  development bypass switch.
- `src/issuer.rs` — the issuer's flags, license planning, key files and
  signing.
- `src/external.rs` — the trusted contracts of the calls into std, base64,
  serde_json, sha2, hex, ed25519-dalek, chrono and machine-uid.
- `src/laws.rs` — properties that span functions.
- `app/` — the `licensegen` command line (key generation, issuing) and the
  application-side reading of license files and JSON forms.
