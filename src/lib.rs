//! An attestation oracle: it parses signed cross-chain envelopes, checks that
//! they come from one trusted emitter, hands them to an outside verifier and,
//! once the verifier approves, commits their JSON payload as the latest snapshot.
pub mod encoding;
pub mod envelope;
pub mod text;
pub mod oracle;
