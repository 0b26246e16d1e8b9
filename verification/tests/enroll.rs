use base64::Engine as _;
use ed25519_dalek::{Signer, SigningKey};
use multiview_control::devices::enroll::{
    canonical_message, clock_bytes, code_from_bytes, hex_lower, key_fingerprint, parse_public_key,
    parse_signature, random_code, random_hex, DisplayHead, EnrollError, EnrollOutcome,
    EnrollRequest, NodeEnrollState, PairCompletion, TokenState, CODE_LEN, MAX_PENDING_PAIRINGS,
    MAX_TOKEN_TTL_SECS, MIN_TOKEN_TTL_SECS,
};
use sha2::Digest;

const NOW: u64 = 1_700_000_000_000;

fn signer(n: u8) -> SigningKey {
    SigningKey::from_bytes(&[n; 32])
}

fn b64(bytes: &[u8]) -> String {
    base64::engine::general_purpose::STANDARD.encode(bytes)
}

fn request(n: u8, token: Option<&str>) -> EnrollRequest {
    EnrollRequest {
        token: token.map(str::to_owned),
        public_key: b64(signer(n).verifying_key().as_bytes()),
        model: "node".to_owned(),
        node_name: format!("wall {n}"),
        heads: vec![],
    }
}

fn head(id: &str) -> DisplayHead {
    DisplayHead {
        id: id.to_owned(),
        connector: "HDMI-A-1".to_owned(),
        width: 1920,
        height: 1080,
        refresh_millihertz: 60_000,
        connected: true,
    }
}

#[test]
fn canonical_message_is_deterministic_and_body_bound() {
    let a = canonical_message("POST", "/p", "dev", 10, b"body");
    let b = canonical_message("POST", "/p", "dev", 10, b"body");
    assert_eq!(a, b, "the canonical message is a pure function of its parts");
    let c = canonical_message("POST", "/p", "dev", 10, b"BODY");
    assert_ne!(a, c, "a different body hashes differently");
    assert!(a.contains("dev"));
    assert!(a.contains("\n10\n"));
}

#[test]
fn token_ttl_is_range_checked() {
    let mut state = NodeEnrollState::new();
    assert!(matches!(state.mint_token(Some(1), NOW), Err(EnrollError::Invalid(_))));
    assert!(matches!(
        state.mint_token(Some(MAX_TOKEN_TTL_SECS + 1), NOW),
        Err(EnrollError::Invalid(_))
    ));
    assert!(state.mint_token(Some(MIN_TOKEN_TTL_SECS), NOW).is_ok());
    assert!(state.mint_token(None, NOW).is_ok());
}

#[test]
fn pairing_code_uses_the_unambiguous_alphabet() {
    for _ in 0..256 {
        let code = random_code(NOW);
        assert_eq!(code.len(), CODE_LEN);
        assert!(code.chars().all(|c| "ABCDEFGHJKLMNPQRSTUVWXYZ23456789".contains(c)));
    }
}

#[test]
fn random_hex_is_the_right_length_and_lowercase() {
    let h = random_hex(8, NOW);
    assert_eq!(h.len(), 16);
    assert!(h.chars().all(|c| c.is_ascii_hexdigit() && !c.is_uppercase()));
}

#[test]
fn digests_and_codes_are_rendered_exactly() {
    assert_eq!(hex_lower(&[0x00, 0x0f, 0xa0, 0xff]), "000fa0ff");
    assert_eq!(clock_bytes(0x0102_0304_0506_0708, 9), vec![8, 7, 6, 5, 4, 3, 2, 1, 8]);
    assert_eq!(code_from_bytes(&[0, 1, 31, 32, 63, 255]), "AB9A99");
    let body_hash: String =
        sha2::Sha256::digest(b"body").iter().map(|b| format!("{b:02x}")).collect();
    assert!(canonical_message("POST", "/p", "dev", 10, b"body").ends_with(&body_hash));
    let key = signer(1).verifying_key().to_bytes();
    let full: String = sha2::Sha256::digest(key).iter().map(|b| format!("{b:02x}")).collect();
    assert!(full.starts_with(&key_fingerprint(&key)));
    assert_ne!(random_hex(32, NOW), random_hex(32, NOW));
}

#[test]
fn keys_and_signatures_are_read_from_base64() {
    let key = signer(1).verifying_key().to_bytes();
    assert_eq!(parse_public_key(&format!(" {} ", b64(&key))), Ok(key));
    let refused = |t: &str| match parse_public_key(t) {
        Err(EnrollError::Invalid(m)) => m,
        other => panic!("expected a refusal, got {other:?}"),
    };
    assert_eq!(refused("***"), "public_key is not valid base64");
    assert_eq!(refused(&b64(&[1; 31])), "public_key must be 32 bytes");
    // A point that is not on the curve.
    let mut off_curve = [0u8; 32];
    off_curve[0] = 2;
    assert_eq!(refused(&b64(&off_curve)), "public_key is not a valid Ed25519 key");
    assert_eq!(parse_signature(&b64(&[7; 64])), Some([7; 64]));
    assert_eq!(parse_signature(&b64(&[7; 63])), None);
    assert_eq!(parse_signature("!"), None);
}

#[test]
fn a_minted_token_is_redeemed_once() {
    let mut state = NodeEnrollState::new();
    let minted = state.mint_token(Some(60), NOW).unwrap();
    assert_eq!(minted.created_epoch_s, 1_700_000_000);
    assert_eq!(minted.expires_epoch_s, 1_700_000_060);
    let EnrollOutcome::Enrolled { device_id, .. } =
        state.enroll(&request(1, Some(&minted.token)), NOW).unwrap()
    else {
        panic!("a valid token enrolls");
    };
    assert!(state.is_enrolled(&device_id));
    let listed = state.list_tokens(NOW);
    assert_eq!(listed[0].state, TokenState::Used);
    assert_eq!(listed[0].used_by.as_deref(), Some(device_id.as_str()));
    // The same token does not enroll another key.
    assert_eq!(
        state.enroll(&request(2, Some(&minted.token)), NOW),
        Err(EnrollError::TokenRejected)
    );
    assert!(state.list_pairing_requests().is_empty());
    assert_eq!(state.list_tokens(NOW), listed);
    // The same key keeps its device, with the token or without.
    assert!(matches!(
        state.enroll(&request(1, Some(&minted.token)), NOW),
        Ok(EnrollOutcome::Enrolled { device_id: again, .. }) if again == device_id
    ));
    match state.enroll(&request(1, None), NOW).unwrap() {
        EnrollOutcome::Enrolled { device_id: again, heartbeat_secs } => {
            assert_eq!(again, device_id);
            assert_eq!(heartbeat_secs, 10);
        }
        other => panic!("expected the same device, got {other:?}"),
    }
}

#[test]
fn revoked_expired_and_garbled_tokens_are_refused() {
    let mut state = NodeEnrollState::new();
    let revoked = state.mint_token(None, NOW).unwrap();
    assert!(state.revoke_token(&revoked.token_id));
    assert!(!state.revoke_token("enr-unknown"));
    let expired = state.mint_token(Some(60), NOW).unwrap();
    for (token, at) in [
        (revoked.token.as_str(), NOW),
        (expired.token.as_str(), NOW + 61_000),
        ("garbled", NOW),
        ("enr-unknown.secret", NOW),
    ] {
        assert_eq!(
            state.enroll(&request(1, Some(token)), at),
            Err(EnrollError::TokenRejected),
            "{token}"
        );
    }
}

#[test]
fn pairing_shows_one_code_until_it_is_completed() {
    let mut state = NodeEnrollState::new();
    let code = |state: &mut NodeEnrollState| match state.enroll(&request(1, None), NOW).unwrap() {
        EnrollOutcome::Pairing { pairing_code, retry_secs } => {
            assert_eq!(retry_secs, 5);
            pairing_code
        }
        other => panic!("expected a pairing code, got {other:?}"),
    };
    let first = code(&mut state);
    assert_eq!(code(&mut state), first, "the code is the same at every poll");
    assert_eq!(state.list_pairing_requests().len(), 1);
    assert_eq!(
        state.complete_pairing("WRONG1", None, None, NOW),
        PairCompletion::NotFound
    );
    match state.complete_pairing(&first.to_lowercase(), Some("wall-1"), Some("Wall"), NOW) {
        PairCompletion::Completed { device_id, node_name, public_key_b64, .. } => {
            assert_eq!(device_id, "wall-1");
            assert_eq!(node_name, "Wall");
            assert_eq!(public_key_b64, request(1, None).public_key);
        }
        other => panic!("expected a completion, got {other:?}"),
    }
    match state.enroll(&request(1, None), NOW).unwrap() {
        EnrollOutcome::Enrolled { device_id, .. } => assert_eq!(device_id, "wall-1"),
        other => panic!("expected an enrolment, got {other:?}"),
    }
}

#[test]
fn a_pairing_whose_device_could_not_be_made_can_be_completed_again() {
    let mut state = NodeEnrollState::new();
    let code = match state.enroll(&request(1, None), NOW).unwrap() {
        EnrollOutcome::Pairing { pairing_code, .. } => pairing_code,
        other => panic!("expected a pairing code, got {other:?}"),
    };
    state.complete_pairing(&code, Some("taken"), None, NOW);
    assert!(state.list_pairing_requests().is_empty());
    assert_eq!(state.complete_pairing(&code, Some("free"), None, NOW), PairCompletion::NotFound);
    state.unassign_pairing("other");
    assert!(state.list_pairing_requests().is_empty());
    state.unassign_pairing("taken");
    assert_eq!(state.list_pairing_requests().len(), 1);
    match state.complete_pairing(&code, Some("free"), None, NOW) {
        PairCompletion::Completed { device_id, .. } => assert_eq!(device_id, "free"),
        other => panic!("expected a completion, got {other:?}"),
    }
}

#[test]
fn every_part_of_a_request_is_in_the_signed_message() {
    let message = canonical_message("POST", "/p", "dev", 10, b"body");
    for other in [
        canonical_message("PUT", "/p", "dev", 10, b"body"),
        canonical_message("POST", "/q", "dev", 10, b"body"),
        canonical_message("POST", "/p", "dew", 10, b"body"),
        canonical_message("POST", "/p", "dev", 11, b"body"),
        canonical_message("POST", "/p", "dev", 10, b"bodx"),
    ] {
        assert_ne!(message, other);
    }
    // A part that spans lines could be read in two ways.
    assert_eq!(
        canonical_message("POST", "/p\nx", "dev", 10, b""),
        canonical_message("POST\n/p", "x", "dev", 10, b"")
    );
}

#[test]
fn the_pairing_table_is_bounded() {
    let mut state = NodeEnrollState::new();
    for n in 0..MAX_PENDING_PAIRINGS {
        assert!(state.enroll(&request(n as u8, None), NOW).is_ok());
    }
    assert_eq!(state.enroll(&request(200, None), NOW), Err(EnrollError::PairingTableFull));
}

#[test]
fn heartbeats_are_signed_fresh_and_never_replayed() {
    let mut state = NodeEnrollState::new();
    let minted = state.mint_token(None, NOW).unwrap();
    let EnrollOutcome::Enrolled { device_id, .. } =
        state.enroll(&request(1, Some(&minted.token)), NOW).unwrap()
    else {
        panic!("enrolls");
    };
    let sign = |n: u8, ts: u64, body: &[u8]| {
        let m = canonical_message("POST", "/hb", &device_id, ts, body);
        b64(&signer(n).sign(m.as_bytes()).to_bytes())
    };
    let ts = NOW / 1000;
    let mut beat = |ts: u64, sig: &str, body: &[u8]| {
        state.verify_heartbeat(&device_id, ts, sig, "/hb", body, vec![head("h0")], NOW)
    };
    let good = sign(1, ts, b"{}");
    let ok = beat(ts, &good, b"{}").unwrap();
    assert_eq!(ok.heads.len(), 1);
    assert_eq!(beat(ts, &good, b"{}"), Err(EnrollError::Unauthorized), "a replay");
    let next = sign(1, ts + 1, b"{}");
    assert_eq!(beat(ts + 1, &next, b"other"), Err(EnrollError::Unauthorized), "another body");
    assert_eq!(
        beat(ts + 1, &sign(2, ts + 1, b"{}"), b"{}"),
        Err(EnrollError::Unauthorized),
        "another key"
    );
    assert_eq!(
        beat(ts + 301, &sign(1, ts + 301, b"{}"), b"{}"),
        Err(EnrollError::Unauthorized),
        "too far ahead"
    );
    assert!(beat(ts + 1, &next, b"{}").is_ok());
    assert_eq!(state.display_heads(&device_id).unwrap()[0].id, "h0");
    state.forget(&device_id);
    assert!(!state.is_enrolled(&device_id));
    assert_eq!(state.display_heads(&device_id), None);
}

#[test]
fn two_pairings_never_collide() {
    let mut state = NodeEnrollState::new();
    assert_eq!(state.spare_code(), "AAAAAA");
    // Every spare code but the last is on screen.
    for n in 0..MAX_PENDING_PAIRINGS {
        let at = u8::try_from(n).unwrap();
        let key = signer(at + 1).verifying_key().to_bytes();
        let code = state.spare_code();
        assert_eq!(code, code_from_bytes(&[0, 0, 0, 0, at / 32, at % 32]));
        let shown = state.enroll_with(key, &request(at + 1, None), NOW, "node-x".to_owned(), code);
        assert!(matches!(shown, Ok(EnrollOutcome::Pairing { .. })));
    }
    assert_eq!(state.spare_code(), "AAAABA");
    // Drawn codes differ from one another.
    let mut drawn = NodeEnrollState::new();
    let mut codes = Vec::new();
    for n in 1..=20 {
        match drawn.enroll(&request(n, None), NOW) {
            Ok(EnrollOutcome::Pairing { pairing_code, .. }) => {
                assert!(!codes.contains(&pairing_code));
                codes.push(pairing_code);
            }
            other => panic!("expected a pairing code, got {other:?}"),
        }
    }
}
