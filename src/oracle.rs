//! The oracle's state and its transitions: validation and dispatch of an
//! envelope, the continuation that commits a verified payload, and the
//! owner-gated operations.
use vstd::prelude::*;
use vstd::string::StringExecFns;
use vstd::utf8::{decode_utf8, encode_utf8, valid_utf8};
use crate::encoding::{bytes_equal, copy_range, hex_bytes, hex_lower, is_hex_text, keccak256, keccak_of, utf8_text};
use crate::envelope::{be16, body_offset, is_complete, parse_vaa_body, ParseError, ParsedVaaBody, body_matches};
use crate::text::{canonical_emitter, canonicalize_emitter, is_json_object_text, looks_like_json_object, lower_of, lowercase};

verus! {

/// The only emitter chain whose envelopes are accepted.
pub const WORMHOLE_CHAIN_ID_ARBITRUM_SEPOLIA: u16 = 10003;

/// Why an operation was refused.
#[derive(Clone, Copy, Debug, PartialEq, Eq, Structural)]
pub enum OracleError {
    /// The envelope could not be read.
    Parse(ParseError),
    /// The envelope comes from another chain.
    WrongChain,
    /// The envelope comes from an emitter other than the trusted one.
    UntrustedEmitter,
    /// The envelope was committed before.
    AlreadyProcessed,
    /// The verifier rejected the envelope.
    VerificationFailed,
    /// The payload is not UTF-8 text.
    InvalidUtf8,
    /// The payload is not shaped as a JSON object.
    NotJsonObject,
    /// The caller is not the owner.
    Unauthorized,
}

/// The oracle's state as values.
pub struct OracleState {
    pub owner: Seq<char>,
    pub snapshot: Seq<char>,
    pub last_update_ts: u64,
    pub trusted_emitter: Seq<char>,
    pub snapshot_count: u64,
    /// Fingerprints of the committed envelopes, oldest first.
    pub processed: Seq<Seq<u8>>,
}

impl OracleState {
    /// The trusted emitter is padded to at least 64 digits and every
    /// fingerprint is a 32-byte digest.
    pub open spec fn well_formed(self) -> bool {
        &&& self.trusted_emitter.len() >= 64
        &&& forall|i: int| 0 <= i < self.processed.len() ==> #[trigger] self.processed[i].len() == 32
    }
}

/// A request for the outside verifier, made once an envelope has passed the
/// local checks. It carries the envelope itself, so that the continuation
/// works from the envelope and not from whatever the state has become.
#[derive(Clone, Debug)]
pub struct VerifyRequest {
    /// The hexadecimal envelope, to be handed to the verifier and back to
    /// the continuation.
    pub vaa: String,
    /// The envelope's body.
    pub body: ParsedVaaBody,
}

/// The oracle: its owner, the latest snapshot, the trusted emitter and the
/// fingerprints of every committed envelope.
pub struct GoogleCertOracle {
    owner: String,
    last_snapshot: String,
    last_update_ts: u64,
    trusted_emitter: String,
    snapshot_count: u64,
    processed_vaas: Vec<Vec<u8>>,
}

impl View for GoogleCertOracle {
    type V = OracleState;

    closed spec fn view(&self) -> OracleState {
        OracleState {
            owner: self.owner@,
            snapshot: self.last_snapshot@,
            last_update_ts: self.last_update_ts,
            trusted_emitter: self.trusted_emitter@,
            snapshot_count: self.snapshot_count,
            processed: Seq::new(self.processed_vaas@.len(), |i: int| self.processed_vaas@[i]@),
        }
    }
}

/// The replay key of an envelope: the Keccak-256 digest of its text.
pub open spec fn fingerprint(vaa: Seq<char>) -> Seq<u8> {
    keccak_of(encode_utf8(vaa))
}

/// The envelope bytes that hexadecimal text stands for.
pub open spec fn envelope_bytes(vaa: Seq<char>) -> Seq<u8> {
    hex_bytes(vaa)
}

/// The payload bytes of a complete envelope.
pub open spec fn payload_bytes(vaa: Seq<char>) -> Seq<u8> {
    let b = envelope_bytes(vaa);
    b.subrange(body_offset(b) + 51, b.len() as int)
}

/// Why the envelope text cannot be read, if it cannot.
pub open spec fn parse_error(vaa: Seq<char>) -> Option<OracleError> {
    if !is_hex_text(vaa) {
        Some(OracleError::Parse(ParseError::BadEncoding))
    } else if !is_complete(envelope_bytes(vaa)) {
        Some(OracleError::Parse(ParseError::Truncated))
    } else {
        None
    }
}

/// Why an envelope is refused before any verification is asked for, if it is.
pub open spec fn submit_check(st: OracleState, vaa: Seq<char>) -> Option<OracleError> {
    let b = envelope_bytes(vaa);
    let o = body_offset(b);
    if parse_error(vaa) is Some {
        parse_error(vaa)
    } else if be16(b, o + 8) != WORMHOLE_CHAIN_ID_ARBITRUM_SEPOLIA {
        Some(OracleError::WrongChain)
    } else if lower_of(hex_lower(b.subrange(o + 10, o + 42))) != lower_of(st.trusted_emitter) {
        Some(OracleError::UntrustedEmitter)
    } else if st.processed.contains(fingerprint(vaa)) {
        Some(OracleError::AlreadyProcessed)
    } else {
        None
    }
}

/// Why the continuation refuses to commit an envelope, if it does; `verified`
/// tells whether the verifier approved it.
pub open spec fn commit_check(st: OracleState, vaa: Seq<char>, verified: bool) -> Option<
    OracleError,
> {
    if !verified {
        Some(OracleError::VerificationFailed)
    } else if parse_error(vaa) is Some {
        parse_error(vaa)
    } else if !valid_utf8(payload_bytes(vaa)) {
        Some(OracleError::InvalidUtf8)
    } else if !is_json_object_text(decode_utf8(payload_bytes(vaa))) {
        Some(OracleError::NotJsonObject)
    } else if st.processed.contains(fingerprint(vaa)) {
        Some(OracleError::AlreadyProcessed)
    } else {
        None
    }
}

/// The state after `text` is committed at time `now`.
pub open spec fn with_snapshot(st: OracleState, text: Seq<char>, now: u64) -> OracleState {
    OracleState {
        snapshot: text,
        last_update_ts: now,
        snapshot_count: (st.snapshot_count + 1) as u64,
        ..st
    }
}

/// The state after the envelope `vaa`, once verified, is committed at time `now`.
pub open spec fn committed(st: OracleState, vaa: Seq<char>, now: u64) -> OracleState {
    let after = with_snapshot(st, decode_utf8(payload_bytes(vaa)), now);
    OracleState { processed: st.processed.push(fingerprint(vaa)), ..after }
}

/// The state after the trusted emitter is replaced by `emitter`.
pub open spec fn with_trusted_emitter(st: OracleState, emitter: Seq<char>) -> OracleState {
    OracleState { trusted_emitter: canonical_emitter(emitter), ..st }
}

/// A fresh oracle.
pub open spec fn initial_state(owner: Seq<char>, trusted_emitter: Seq<char>) -> OracleState {
    OracleState {
        owner,
        snapshot: seq!['{', '}'],
        last_update_ts: 0,
        trusted_emitter: canonical_emitter(trusted_emitter),
        snapshot_count: 0,
        processed: Seq::empty(),
    }
}

/// Committing a verified envelope adds exactly one to the commit count, makes
/// its payload the snapshot as of `now`, and records it, so that the same
/// envelope is refused as a replay from then on: by a second continuation, and
/// at dispatch wherever it passed dispatch before.
pub proof fn lemma_commit_then_replay(st: OracleState, vaa: Seq<char>, now: u64)
    requires
        commit_check(st, vaa, true) is None,
        st.snapshot_count < u64::MAX,
    ensures
        committed(st, vaa, now).snapshot_count == st.snapshot_count + 1,
        committed(st, vaa, now).snapshot == decode_utf8(payload_bytes(vaa)),
        committed(st, vaa, now).last_update_ts == now,
        commit_check(committed(st, vaa, now), vaa, true) == Some(OracleError::AlreadyProcessed),
        submit_check(st, vaa) is None ==> submit_check(committed(st, vaa, now), vaa) == Some(
            OracleError::AlreadyProcessed,
        ),
{
    let after = committed(st, vaa, now);
    assert(after.processed[st.processed.len() as int] == fingerprint(vaa));
    assert(after.processed.contains(fingerprint(vaa)));
}

/// The trusted emitter is put in the same canonical form when the oracle is
/// made and when the owner replaces it.
pub proof fn lemma_emitter_form_agrees(st: OracleState, owner: Seq<char>, emitter: Seq<char>)
    ensures
        initial_state(owner, emitter).trusted_emitter == with_trusted_emitter(
            st,
            emitter,
        ).trusted_emitter,
        with_trusted_emitter(st, emitter).trusted_emitter == canonical_emitter(emitter),
{
}

impl GoogleCertOracle {
    /// A fresh oracle with an empty snapshot and the emitter in canonical form.
    pub fn new(owner: String, trusted_emitter: String) -> (r: Self)
        ensures
            r@ == initial_state(owner@, trusted_emitter@),
            r@.well_formed(),
    {
        proof {
            reveal_strlit("{}");
        }
        let r = GoogleCertOracle {
            owner,
            last_snapshot: String::from_str("{}"),
            last_update_ts: 0,
            trusted_emitter: canonicalize_emitter(trusted_emitter.as_str()),
            snapshot_count: 0,
            processed_vaas: Vec::new(),
        };
        assert(r@.processed =~= Seq::<Seq<u8>>::empty());
        assert(r@.snapshot =~= seq!['{', '}']);
        r
    }

    /// An oracle rebuilt from its stored parts.
    pub fn restore(
        owner: String,
        last_snapshot: String,
        last_update_ts: u64,
        trusted_emitter: String,
        snapshot_count: u64,
        processed_vaas: Vec<Vec<u8>>,
    ) -> (r: Self)
        ensures
            r@ == (OracleState {
                owner: owner@,
                snapshot: last_snapshot@,
                last_update_ts,
                trusted_emitter: trusted_emitter@,
                snapshot_count,
                processed: Seq::new(processed_vaas@.len(), |i: int| processed_vaas@[i]@),
            }),
    {
        GoogleCertOracle {
            owner,
            last_snapshot,
            last_update_ts,
            trusted_emitter,
            snapshot_count,
            processed_vaas,
        }
    }

    /// The fingerprints of the committed envelopes, oldest first.
    pub fn processed_fingerprints(&self) -> (r: Vec<Vec<u8>>)
        ensures
            r@.len() == self@.processed.len(),
            forall|i: int| 0 <= i < r@.len() ==> #[trigger] r@[i]@ == self@.processed[i],
    {
        let mut r: Vec<Vec<u8>> = Vec::new();
        let mut k: usize = 0;
        while k < self.processed_vaas.len()
            invariant
                k <= self.processed_vaas@.len(),
                r@.len() == k,
                forall|i: int| 0 <= i < k ==> #[trigger] r@[i]@ == self@.processed[i],
            decreases self.processed_vaas@.len() - k,
        {
            let fp = &self.processed_vaas[k];
            r.push(copy_range(fp.as_slice(), 0, fp.len()));
            assert(fp@.subrange(0, fp@.len() as int) =~= fp@);
            k += 1;
        }
        r
    }

    /// Whether the fingerprint is among the committed ones.
    fn is_processed(&self, fp: &Vec<u8>) -> (r: bool)
        ensures
            r == self@.processed.contains(fp@),
    {
        let mut k: usize = 0;
        while k < self.processed_vaas.len()
            invariant
                k <= self.processed_vaas@.len(),
                forall|m: int| 0 <= m < k ==> self@.processed[m] != fp@,
            decreases self.processed_vaas@.len() - k,
        {
            if bytes_equal(self.processed_vaas[k].as_slice(), fp.as_slice()) {
                assert(self@.processed[k as int] == fp@);
                return true;
            }
            k += 1;
        }
        false
    }

    /// Checks the caller against the owner.
    fn assert_owner(&self, caller: &str) -> (r: Result<(), OracleError>)
        ensures
            r is Ok <==> caller@ == self@.owner,
            r matches Err(e) ==> e == OracleError::Unauthorized,
    {
        let caller = String::from_str(caller);
        if caller == self.owner {
            Ok(())
        } else {
            Err(OracleError::Unauthorized)
        }
    }

    /// Validates an envelope before verification is asked for: it must be
    /// readable, come from the expected chain and the trusted emitter, and not
    /// have been committed before. Nothing is changed.
    pub fn submit_vaa(&self, vaa: String) -> (r: Result<VerifyRequest, OracleError>)
        ensures
            match r {
                Ok(req) => submit_check(self@, vaa@) is None && req.vaa@ == vaa@ && body_matches(
                    req.body,
                    envelope_bytes(vaa@),
                ),
                Err(e) => submit_check(self@, vaa@) == Some(e),
            },
    {
        let parsed = match parse_vaa_body(vaa.as_str()) {
            Ok(p) => p,
            Err(e) => {
                return Err(OracleError::Parse(e));
            },
        };
        if parsed.emitter_chain != WORMHOLE_CHAIN_ID_ARBITRUM_SEPOLIA {
            return Err(OracleError::WrongChain);
        }
        let emitter = lowercase(parsed.emitter_address.as_str());
        let trusted = lowercase(self.trusted_emitter.as_str());
        if !(emitter == trusted) {
            return Err(OracleError::UntrustedEmitter);
        }
        let fp = keccak256(vaa.as_str().as_bytes());
        if self.is_processed(&fp) {
            return Err(OracleError::AlreadyProcessed);
        }
        Ok(VerifyRequest { vaa, body: parsed })
    }

    /// The continuation of a verification request: `verification_result` is
    /// the guardian-set index that the verifier reported, or `None` when it
    /// rejected the envelope. On approval the envelope is read again, its
    /// payload must be JSON-object text, and, unless the envelope was committed
    /// meanwhile, it becomes the snapshot at time `now`. Any refusal leaves the
    /// state as it was.
    pub fn on_vaa_verified(
        &mut self,
        vaa: String,
        verification_result: Option<u32>,
        now: u64,
    ) -> (r: Result<(), OracleError>)
        requires
            old(self)@.snapshot_count < u64::MAX,
        ensures
            old(self)@.well_formed() ==> final(self)@.well_formed(),
            match r {
                Ok(()) => commit_check(old(self)@, vaa@, verification_result is Some) is None
                    && final(self)@ == committed(old(self)@, vaa@, now),
                Err(e) => commit_check(old(self)@, vaa@, verification_result is Some) == Some(e)
                    && final(self)@ == old(self)@,
            },
    {
        if verification_result.is_none() {
            return Err(OracleError::VerificationFailed);
        }
        let parsed = match parse_vaa_body(vaa.as_str()) {
            Ok(p) => p,
            Err(e) => {
                return Err(OracleError::Parse(e));
            },
        };
        let snapshot_json = match utf8_text(parsed.payload) {
            Some(s) => s,
            None => {
                return Err(OracleError::InvalidUtf8);
            },
        };
        if !looks_like_json_object(snapshot_json.as_str()) {
            return Err(OracleError::NotJsonObject);
        }
        let fp = keccak256(vaa.as_str().as_bytes());
        if self.is_processed(&fp) {
            return Err(OracleError::AlreadyProcessed);
        }
        let ghost before = self@;
        self.processed_vaas.push(fp);
        self.last_snapshot = snapshot_json;
        self.last_update_ts = now;
        self.snapshot_count = self.snapshot_count + 1;
        assert(self@.processed =~= before.processed.push(fingerprint(vaa@)));
        assert(self@.processed.last() == fp@);
        Ok(())
    }

    /// Commits a snapshot directly, without an envelope; only the owner may.
    /// The snapshot must be JSON-object text. The committed fingerprints stay
    /// as they are.
    pub fn submit_snapshot(&mut self, caller: &str, snapshot_json: String, now: u64) -> (r: Result<
        (),
        OracleError,
    >)
        requires
            old(self)@.snapshot_count < u64::MAX,
        ensures
            old(self)@.well_formed() ==> final(self)@.well_formed(),
            r is Ok <==> caller@ == old(self)@.owner && is_json_object_text(snapshot_json@),
            r matches Err(OracleError::Unauthorized) <==> caller@ != old(self)@.owner,
            r matches Err(OracleError::NotJsonObject) <==> caller@ == old(self)@.owner
                && !is_json_object_text(snapshot_json@),
            r is Ok ==> final(self)@ == with_snapshot(old(self)@, snapshot_json@, now),
            r is Err ==> final(self)@ == old(self)@,
    {
        self.assert_owner(caller)?;
        if !looks_like_json_object(snapshot_json.as_str()) {
            return Err(OracleError::NotJsonObject);
        }
        let ghost before = self@;
        self.last_snapshot = snapshot_json;
        self.last_update_ts = now;
        self.snapshot_count = self.snapshot_count + 1;
        assert(self@.processed =~= before.processed);
        Ok(())
    }

    /// Hands ownership to `new_owner`; only the owner may.
    pub fn transfer_ownership(&mut self, caller: &str, new_owner: String) -> (r: Result<
        (),
        OracleError,
    >)
        ensures
            old(self)@.well_formed() ==> final(self)@.well_formed(),
            r is Ok <==> caller@ == old(self)@.owner,
            r matches Err(e) ==> e == OracleError::Unauthorized && final(self)@ == old(self)@,
            r is Ok ==> final(self)@ == (OracleState { owner: new_owner@, ..old(self)@ }),
    {
        self.assert_owner(caller)?;
        let ghost before = self@;
        self.owner = new_owner;
        assert(self@.processed =~= before.processed);
        Ok(())
    }

    /// Replaces the trusted emitter, in canonical form; only the owner may.
    pub fn set_trusted_emitter(&mut self, caller: &str, emitter: String) -> (r: Result<
        (),
        OracleError,
    >)
        ensures
            old(self)@.well_formed() ==> final(self)@.well_formed(),
            r is Ok <==> caller@ == old(self)@.owner,
            r matches Err(e) ==> e == OracleError::Unauthorized && final(self)@ == old(self)@,
            r is Ok ==> final(self)@ == with_trusted_emitter(old(self)@, emitter@),
    {
        self.assert_owner(caller)?;
        let ghost before = self@;
        self.trusted_emitter = canonicalize_emitter(emitter.as_str());
        assert(self@.processed =~= before.processed);
        Ok(())
    }

    /// The latest snapshot text.
    pub fn get_snapshot(&self) -> (r: String)
        ensures
            r@ == self@.snapshot,
    {
        self.last_snapshot.clone()
    }

    /// When the latest snapshot was committed.
    pub fn get_last_update_ts(&self) -> (r: u64)
        ensures
            r == self@.last_update_ts,
    {
        self.last_update_ts
    }

    /// The owner's account.
    pub fn get_owner(&self) -> (r: String)
        ensures
            r@ == self@.owner,
    {
        self.owner.clone()
    }

    /// The trusted emitter in canonical form.
    pub fn get_trusted_emitter(&self) -> (r: String)
        ensures
            r@ == self@.trusted_emitter,
    {
        self.trusted_emitter.clone()
    }

    /// How many snapshots were committed.
    pub fn get_snapshot_count(&self) -> (r: u64)
        ensures
            r == self@.snapshot_count,
    {
        self.snapshot_count
    }

    /// How many envelopes were committed.
    pub fn get_processed_vaa_count(&self) -> (r: usize)
        ensures
            r == self@.processed.len(),
    {
        self.processed_vaas.len()
    }
}

} // verus!
