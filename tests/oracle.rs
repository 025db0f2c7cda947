use cert_oracle::envelope::{parse_envelope, parse_vaa_body, ParseError};
use cert_oracle::oracle::{GoogleCertOracle, OracleError};
use cert_oracle::text::{canonicalize_emitter, looks_like_json_object, remove_0x};

const EMITTER: &str = "0000000000000000000000001234567890abcdef1234567890abcdef12345678";

fn address_bytes() -> Vec<u8> {
    hex::decode(EMITTER).unwrap()
}

/// An envelope with `n` signatures, the given chain, emitter, sequence and payload.
fn envelope(n: u8, chain: u16, emitter: &[u8], sequence: u64, payload: &[u8]) -> Vec<u8> {
    let mut b = vec![1u8, 0, 0, 0, 4, n];
    for s in 0..n {
        b.extend(std::iter::repeat(s + 0x40).take(66));
    }
    b.extend([0x65, 0x00, 0x00, 0x01]);
    b.extend([0, 0, 0, 7]);
    b.extend(chain.to_be_bytes());
    b.extend(emitter);
    b.extend(sequence.to_be_bytes());
    b.push(15);
    b.extend(payload);
    b
}

fn envelope_hex(chain: u16, payload: &[u8]) -> String {
    hex::encode(envelope(2, chain, &address_bytes(), 42, payload))
}

fn oracle() -> GoogleCertOracle {
    GoogleCertOracle::new("owner.testnet".to_string(), "0x1234567890ABCDEF1234567890abcdef12345678".to_string())
}

#[test]
fn parses_body_fields_after_signatures() {
    let b = envelope(3, 10003, &address_bytes(), 0x0102030405060708, b"{\"k\":1}");
    assert_eq!(b.len(), 6 + 66 * 3 + 51 + 7);
    let p = parse_envelope(&b).unwrap();
    assert_eq!(p.emitter_chain, 10003);
    assert_eq!(p.emitter_address, EMITTER);
    assert_eq!(p.sequence, 0x0102030405060708);
    assert_eq!(p.payload, b"{\"k\":1}".to_vec());
}

#[test]
fn parses_envelope_without_signatures_from_hex() {
    let b = envelope(0, 2, &[0xAB; 32], 5, b"x");
    let p = parse_vaa_body(&hex::encode_upper(&b)).unwrap();
    assert_eq!(p.emitter_chain, 2);
    assert_eq!(p.emitter_address, "ab".repeat(32));
    assert_eq!(p.sequence, 5);
    assert_eq!(p.payload, b"x".to_vec());
}

#[test]
fn envelope_without_payload_is_truncated() {
    let b = envelope(1, 10003, &address_bytes(), 1, b"");
    assert_eq!(b.len(), 6 + 66 + 51);
    assert_eq!(parse_envelope(&b).unwrap_err(), ParseError::Truncated);
    assert_eq!(parse_envelope(&b[..5]).unwrap_err(), ParseError::Truncated);
    assert_eq!(parse_envelope(&[]).unwrap_err(), ParseError::Truncated);
    let mut short = envelope(0, 10003, &address_bytes(), 1, b"{}");
    short[5] = 1;
    assert_eq!(parse_envelope(&short).unwrap_err(), ParseError::Truncated);
}

#[test]
fn non_hex_text_is_refused() {
    assert_eq!(parse_vaa_body("zz").unwrap_err(), ParseError::BadEncoding);
    assert_eq!(parse_vaa_body("abc").unwrap_err(), ParseError::BadEncoding);
    let mut good = envelope_hex(10003, b"{}");
    good.push_str("0g");
    assert_eq!(parse_vaa_body(&good).unwrap_err(), ParseError::BadEncoding);
    let o = oracle();
    assert_eq!(o.submit_vaa("not hex".to_string()).unwrap_err(), OracleError::Parse(ParseError::BadEncoding));
}

#[test]
fn wrong_chain_or_emitter_is_refused_before_dispatch() {
    let o = oracle();
    let wrong_chain = envelope_hex(2, b"{}");
    assert_eq!(o.submit_vaa(wrong_chain).unwrap_err(), OracleError::WrongChain);
    let other = hex::encode(envelope(1, 10003, &[0x11; 32], 1, b"{}"));
    assert_eq!(o.submit_vaa(other).unwrap_err(), OracleError::UntrustedEmitter);
    assert_eq!(o.get_snapshot_count(), 0);
    assert_eq!(o.get_processed_vaa_count(), 0);
}

#[test]
fn verified_envelope_is_committed_once() {
    let mut o = oracle();
    let vaa = envelope_hex(10003, b" {\"certs\":[1,2]} ");
    let req = o.submit_vaa(vaa.clone()).unwrap();
    assert_eq!(req.vaa, vaa);
    assert_eq!(req.body.sequence, 42);
    assert_eq!(req.body.emitter_address, EMITTER);
    assert_eq!(o.on_vaa_verified(req.vaa.clone(), Some(4), 1_700_000_000_000), Ok(()));
    assert_eq!(o.get_snapshot(), " {\"certs\":[1,2]} ");
    assert_eq!(o.get_last_update_ts(), 1_700_000_000_000);
    assert_eq!(o.get_snapshot_count(), 1);
    assert_eq!(o.get_processed_vaa_count(), 1);
    assert_eq!(o.submit_vaa(vaa.clone()).unwrap_err(), OracleError::AlreadyProcessed);
    assert_eq!(o.on_vaa_verified(vaa, Some(4), 1_700_000_000_500), Err(OracleError::AlreadyProcessed));
    assert_eq!(o.get_snapshot_count(), 1);
    assert_eq!(o.get_last_update_ts(), 1_700_000_000_000);
}

#[test]
fn two_dispatches_of_one_envelope_commit_once() {
    let mut o = oracle();
    let vaa = envelope_hex(10003, b"{\"n\":1}");
    let first = o.submit_vaa(vaa.clone()).unwrap();
    let second = o.submit_vaa(vaa.clone()).unwrap();
    assert_eq!(o.on_vaa_verified(first.vaa, Some(1), 10), Ok(()));
    assert_eq!(o.on_vaa_verified(second.vaa, Some(1), 20), Err(OracleError::AlreadyProcessed));
    assert_eq!(o.get_snapshot_count(), 1);
    assert_eq!(o.get_last_update_ts(), 10);
}

#[test]
fn rejected_verification_changes_nothing() {
    let mut o = oracle();
    let vaa = envelope_hex(10003, b"{\"n\":1}");
    assert_eq!(o.on_vaa_verified(vaa.clone(), None, 99), Err(OracleError::VerificationFailed));
    assert_eq!(o.get_snapshot(), "{}");
    assert_eq!(o.get_last_update_ts(), 0);
    assert_eq!(o.get_snapshot_count(), 0);
    assert_eq!(o.get_processed_vaa_count(), 0);
    assert!(o.submit_vaa(vaa).is_ok());
}

#[test]
fn verified_payload_must_be_json_object_text() {
    let mut o = oracle();
    for payload in [&b"[1,2]"[..], b"{\"a\":1", b"\"a\":1}", b"{"] {
        let vaa = envelope_hex(10003, payload);
        assert_eq!(o.on_vaa_verified(vaa, Some(1), 5), Err(OracleError::NotJsonObject));
    }
    let bad_utf8 = envelope_hex(10003, &[b'{', 0xff, b'}']);
    assert_eq!(o.on_vaa_verified(bad_utf8, Some(1), 5), Err(OracleError::InvalidUtf8));
    assert_eq!(o.get_snapshot(), "{}");
    assert_eq!(o.get_snapshot_count(), 0);
    assert_eq!(o.get_processed_vaa_count(), 0);
}

#[test]
fn owner_operations_refuse_other_callers() {
    let mut o = oracle();
    assert_eq!(o.submit_snapshot("mallory.testnet", "{\"x\":1}".to_string(), 3), Err(OracleError::Unauthorized));
    assert_eq!(o.transfer_ownership("mallory.testnet", "mallory.testnet".to_string()), Err(OracleError::Unauthorized));
    assert_eq!(o.set_trusted_emitter("mallory.testnet", "0xdead".to_string()), Err(OracleError::Unauthorized));
    assert_eq!(o.get_owner(), "owner.testnet");
    assert_eq!(o.get_trusted_emitter(), EMITTER);
    assert_eq!(o.get_snapshot(), "{}");
    assert_eq!(o.get_snapshot_count(), 0);
}

#[test]
fn owner_operations_succeed_for_the_owner() {
    let mut o = oracle();
    assert_eq!(o.submit_snapshot("owner.testnet", "\n{\"x\":1}\t".to_string(), 3), Ok(()));
    assert_eq!(o.get_snapshot(), "\n{\"x\":1}\t");
    assert_eq!(o.get_last_update_ts(), 3);
    assert_eq!(o.get_snapshot_count(), 1);
    assert_eq!(o.get_processed_vaa_count(), 0);
    assert_eq!(o.submit_snapshot("owner.testnet", "[]".to_string(), 4), Err(OracleError::NotJsonObject));
    assert_eq!(o.get_snapshot_count(), 1);
    assert_eq!(o.set_trusted_emitter("owner.testnet", "0xDEAD".to_string()), Ok(()));
    assert_eq!(o.get_trusted_emitter(), format!("{}dead", "0".repeat(60)));
    assert_eq!(o.transfer_ownership("owner.testnet", "next.testnet".to_string()), Ok(()));
    assert_eq!(o.get_owner(), "next.testnet");
    assert_eq!(o.set_trusted_emitter("owner.testnet", "0x1".to_string()), Err(OracleError::Unauthorized));
}

#[test]
fn emitter_form_is_the_same_at_creation_and_rotation() {
    let input = "0xAbCdEf0123";
    let made = GoogleCertOracle::new("o".to_string(), input.to_string());
    let mut rotated = GoogleCertOracle::new("o".to_string(), "1".to_string());
    rotated.set_trusted_emitter("o", input.to_string()).unwrap();
    assert_eq!(made.get_trusted_emitter(), rotated.get_trusted_emitter());
    assert_eq!(made.get_trusted_emitter(), format!("{}abcdef0123", "0".repeat(54)));
    assert_eq!(made.get_trusted_emitter().len(), 64);
}

#[test]
fn canonical_emitter_keeps_long_text_and_drops_every_0x() {
    let long = "f".repeat(70);
    assert_eq!(canonicalize_emitter(&long), long);
    assert_eq!(remove_0x("0x0x12"), "12");
    assert_eq!(remove_0x("00xx"), "0x");
    assert_eq!(remove_0x("0X12"), "0X12");
    assert_eq!(canonicalize_emitter("0X12"), format!("{}12", "0".repeat(62)));
}

#[test]
fn json_object_shape_trims_unicode_white_space() {
    assert!(looks_like_json_object("{}"));
    assert!(looks_like_json_object("\u{3000} {\"a\":1}\u{a0}\n"));
    assert!(!looks_like_json_object(""));
    assert!(!looks_like_json_object("   "));
    assert!(!looks_like_json_object("{"));
    assert!(!looks_like_json_object("}"));
    assert!(!looks_like_json_object("x{}"));
    assert!(!looks_like_json_object("{}x"));
}

#[test]
fn committed_fingerprint_is_keccak_of_envelope_text() {
    let mut o = oracle();
    let vaa = envelope_hex(10003, b"{\"n\":2}");
    assert_eq!(o.on_vaa_verified(vaa.clone(), Some(1), 8), Ok(()));
    let fps = o.processed_fingerprints();
    assert_eq!(fps.len(), 1);
    assert_eq!(fps[0].len(), 32);
    assert_eq!(fps[0], near_sdk::env::keccak256(vaa.as_bytes()));
    assert_ne!(fps[0], vaa.as_bytes().to_vec());
}
