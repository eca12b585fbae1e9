//! HMAC-SHA256 signatures of log entries, and the machine-derived key.

use vstd::prelude::*;
use vstd::string::*;
use vstd::utf8::*;
use crate::audit::entry::{LogEntry, LogEntryView};
use crate::audit::json::{entry_json, entry_to_json, hex_digit, hex_digit_of, hex_value, lemma_hex_value_of_digit};
use crate::text::push_char;

verus! {

/// The HMAC-SHA256 tag of `message` under `key` (ring's `hmac::sign` with
/// `hmac::HMAC_SHA256`).
pub uninterp spec fn hmac_sha256(key: Seq<u8>, message: Seq<u8>) -> Seq<u8>;

/// The SHA-256 digest of `data` (ring's `digest::digest` with `digest::SHA256`).
pub uninterp spec fn sha256(data: Seq<u8>) -> Seq<u8>;

/// Inputs that SHA-256 accepts: ring refuses (panics on) a bit length that
/// does not fit in 64 bits.
pub open spec fn sha256_input_fits(len: nat) -> bool {
    len < 0x2000_0000_0000_0000
}

/// Computes HMAC-SHA256 with ring: `hmac::Key::new(hmac::HMAC_SHA256, key)`
/// then `hmac::sign`. Claims that the tag is the named function of key and
/// message, and that it is 32 bytes long (the SHA-256 output length).
/// ring hashes a key longer than a block and processes a 64-byte pad block
/// before the message, so both lengths must stay within SHA-256's limit.
#[verifier::external_body]
fn hmac_sign(key: &[u8], message: &[u8]) -> (tag: Vec<u8>)
    requires
        sha256_input_fits(key@.len()),
        sha256_input_fits(message@.len() + 64),
    ensures
        tag@ == hmac_sha256(key@, message@),
        tag@.len() == 32,
{
    let k = ring::hmac::Key::new(ring::hmac::HMAC_SHA256, key);
    ring::hmac::sign(&k, message).as_ref().to_vec()
}

/// Computes SHA-256 with ring's `digest::digest(&digest::SHA256, data)`.
/// Claims that the digest is the named function of the data and 32 bytes long.
#[verifier::external_body]
fn sha256_digest(data: &[u8]) -> (d: Vec<u8>)
    requires
        sha256_input_fits(data@.len()),
    ensures
        d@ == sha256(data@),
        d@.len() == 32,
{
    ring::digest::digest(&ring::digest::SHA256, data).as_ref().to_vec()
}

/// Lower-case hexadecimal form of bytes, two digits per byte.
pub open spec fn hex_encoding(bytes: Seq<u8>) -> Seq<char>
    decreases bytes.len(),
{
    if bytes.len() == 0 {
        Seq::empty()
    } else {
        hex_encoding(bytes.drop_last()) + seq![
            hex_digit((bytes.last() / 16) as nat),
            hex_digit((bytes.last() % 16) as nat),
        ]
    }
}

pub fn hex_encode(bytes: &[u8]) -> (s: String)
    ensures
        s@ == hex_encoding(bytes@),
{
    let mut s = String::new();
    let mut i: usize = 0;
    while i < bytes.len()
        invariant
            i <= bytes.len(),
            s@ == hex_encoding(bytes@.subrange(0, i as int)),
        decreases bytes.len() - i,
    {
        let b = bytes[i];
        push_char(&mut s, hex_digit_of(b / 16));
        push_char(&mut s, hex_digit_of(b % 16));
        proof {
            let p = bytes@.subrange(0, i + 1);
            assert(p.drop_last() =~= bytes@.subrange(0, i as int));
            assert(s@ =~= hex_encoding(p));
        }
        i = i + 1;
    }
    assert(bytes@.subrange(0, bytes.len() as int) =~= bytes@);
    s
}

/// Whether every character is a lower-case hexadecimal digit.
pub open spec fn is_lower_hex(s: Seq<char>) -> bool {
    forall|i: int| 0 <= i < s.len() ==> ('0' <= #[trigger] s[i] <= '9' || 'a' <= s[i] <= 'f')
}

/// Two hex digits per byte.
pub proof fn lemma_hex_encoding_len(bytes: Seq<u8>)
    ensures
        hex_encoding(bytes).len() == 2 * bytes.len(),
    decreases bytes.len(),
{
    if bytes.len() > 0 {
        lemma_hex_encoding_len(bytes.drop_last());
    }
}

/// The hex form of bytes is two lower-case hex digits per byte, and each
/// pair of digits reads back as its byte.
pub proof fn lemma_hex_encoding_round_trip(bytes: Seq<u8>)
    ensures
        hex_encoding(bytes).len() == 2 * bytes.len(),
        is_lower_hex(hex_encoding(bytes)),
        forall|i: int|
            0 <= i < bytes.len() ==> hex_value(#[trigger] hex_encoding(bytes)[2 * i]) * 16 + hex_value(
                hex_encoding(bytes)[2 * i + 1],
            ) == bytes[i],
    decreases bytes.len(),
{
    if bytes.len() > 0 {
        let b = bytes.drop_last();
        lemma_hex_encoding_round_trip(b);
        let e = hex_encoding(bytes);
        let eb = hex_encoding(b);
        let last = bytes.last();
        lemma_hex_value_of_digit((last / 16) as nat);
        lemma_hex_value_of_digit((last % 16) as nat);
        assert(e == eb + seq![hex_digit((last / 16) as nat), hex_digit((last % 16) as nat)]);
        assert forall|i: int| 0 <= i < e.len() implies ('0' <= #[trigger] e[i] <= '9' || 'a' <= e[i] <= 'f') by {
            if i < eb.len() {
                assert(e[i] == eb[i]);
            }
        }
        assert forall|i: int| 0 <= i < bytes.len() implies hex_value(#[trigger] e[2 * i]) * 16 + hex_value(
            e[2 * i + 1],
        ) == bytes[i] by {
            if i < b.len() {
                assert(e[2 * i] == eb[2 * i]);
                assert(e[2 * i + 1] == eb[2 * i + 1]);
                assert(hex_encoding(b)[2 * i] == eb[2 * i]);
                assert(bytes[i] == b[i]);
            } else {
                assert(i == b.len());
                assert(e[2 * i] == hex_digit((last / 16) as nat));
                assert(e[2 * i + 1] == hex_digit((last % 16) as nat));
            }
        }
    }
}

/// The entry with its signature field emptied: what is signed.
pub open spec fn unsigned(e: LogEntryView) -> LogEntryView {
    LogEntryView { hmac_signature: Seq::empty(), ..e }
}

/// The bytes that are signed: the UTF-8 of the JSON of the unsigned entry.
pub open spec fn signing_payload(e: LogEntryView) -> Seq<u8> {
    encode_utf8(entry_json(unsigned(e)))
}

/// The entry with its signature set: the hex HMAC-SHA256 of its payload.
pub open spec fn signed(key: Seq<u8>, e: LogEntryView) -> LogEntryView {
    LogEntryView { hmac_signature: hex_encoding(hmac_sha256(key, signing_payload(e))), ..e }
}

/// Whether an entry carries the signature that `key` gives it.
pub open spec fn signature_valid(key: Seq<u8>, e: LogEntryView) -> bool {
    e.hmac_signature == hex_encoding(hmac_sha256(key, signing_payload(e)))
}

/// Signing an entry makes its signature valid, and the signature depends
/// on every field but the signature field: signing twice, or signing after
/// the old signature was altered, gives the same entry.
pub proof fn lemma_signing_is_stable(key: Seq<u8>, e: LogEntryView, other_signature: Seq<char>)
    ensures
        signature_valid(key, signed(key, e)),
        signed(key, signed(key, e)) == signed(key, e),
        signed(key, LogEntryView { hmac_signature: other_signature, ..e }) == signed(key, e),
{
    assert(unsigned(signed(key, e)) == unsigned(e));
    assert(unsigned(LogEntryView { hmac_signature: other_signature, ..e }) == unsigned(e));
}

/// Signs an entry with `key`: the signature field is emptied, the JSON of
/// the entry is signed, and the hex of the tag becomes the signature.
pub fn sign_entry(key: &[u8], entry: LogEntry) -> (r: LogEntry)
    requires
        sha256_input_fits(key@.len()),
        sha256_input_fits(signing_payload(entry@).len() + 64),
    ensures
        r@ == signed(key@, entry@),
        hmac_sha256(key@, signing_payload(entry@)).len() == 32,
        r@.hmac_signature.len() == 64,
        is_lower_hex(r@.hmac_signature),
{
    let mut entry = entry;
    let ghost given = entry@;
    entry.hmac_signature = String::new();
    assert(entry@ == unsigned(given));
    let payload = entry_to_json(&entry);
    let bytes = payload.as_str().as_bytes();
    let tag = hmac_sign(key, bytes);
    entry.hmac_signature = hex_encode(tag.as_slice());
    proof {
        lemma_hex_encoding_round_trip(tag@);
    }
    assert(entry@ == signed(key@, given));
    entry
}

/// Whether `sign_entry` may be called: both lengths within SHA-256's limit.
pub fn can_sign(key: &[u8], entry: &LogEntry) -> (ok: bool)
    ensures
        ok == (sha256_input_fits(key@.len()) && sha256_input_fits(signing_payload(entry@).len() + 64)),
{
    let mut e = entry.copy();
    e.hmac_signature = String::new();
    let payload = entry_to_json(&e);
    let n = payload.as_str().as_bytes().len();
    proof {
        assert(e@ == unsigned(entry@));
    }
    (key.len() as u64) < 0x2000_0000_0000_0000u64 && (n as u64) < 0x2000_0000_0000_0000u64 - 64
}

/// The seed of the machine key: SHA-256 of host name, operator and a fixed salt.
pub open spec fn machine_seed(hostname: Seq<char>, operator: Seq<char>) -> Seq<u8> {
    sha256(encode_utf8(hostname) + encode_utf8(operator) + encode_utf8("purgedisk-salt-2024"@))
}

/// The key that a machine derives for itself: HMAC-SHA256 of a fixed label
/// under the machine seed.
pub open spec fn machine_key(hostname: Seq<char>, operator: Seq<char>) -> Seq<u8> {
    hmac_sha256(machine_seed(hostname, operator), encode_utf8("purgedisk-keygen"@))
}

/// Appends the bytes of a slice.
fn push_bytes(v: &mut Vec<u8>, b: &[u8])
    ensures
        final(v)@ == old(v)@ + b@,
{
    let mut i: usize = 0;
    let ghost start = v@;
    while i < b.len()
        invariant
            i <= b.len(),
            v@ == start + b@.subrange(0, i as int),
        decreases b.len() - i,
    {
        v.push(b[i]);
        assert(v@ =~= start + b@.subrange(0, i + 1));
        i = i + 1;
    }
    assert(b@.subrange(0, b.len() as int) =~= b@);
}

/// Derives the machine key from the host name and the operator name.
pub fn generate_machine_key(hostname: &str, operator: &str) -> (k: Vec<u8>)
    requires
        sha256_input_fits(hostname.spec_bytes().len() + operator.spec_bytes().len() + 19),
    ensures
        k@ == machine_key(hostname@, operator@),
        k@.len() == 32,
{
    let mut seed_input: Vec<u8> = Vec::new();
    push_bytes(&mut seed_input, hostname.as_bytes());
    push_bytes(&mut seed_input, operator.as_bytes());
    let salt = "purgedisk-salt-2024";
    push_bytes(&mut seed_input, salt.as_bytes());
    proof {
        reveal_strlit("purgedisk-salt-2024");
        assert(salt.spec_bytes().len() == 19) by {
            broadcast use is_ascii_spec_bytes;
            assert(is_ascii(salt));
        }
    }
    let seed = sha256_digest(seed_input.as_slice());
    let label = "purgedisk-keygen";
    proof {
        reveal_strlit("purgedisk-keygen");
        assert(label.spec_bytes().len() == 16) by {
            broadcast use is_ascii_spec_bytes;
            assert(is_ascii(label));
        }
    }
    hmac_sign(seed.as_slice(), label.as_bytes())
}

} // verus!
