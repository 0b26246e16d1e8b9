//! Display-node enrolment: one-time tokens, screen pairing, signed heartbeats.
//!
//! A node proves who it is with an Ed25519 key pair. It is bound to a device
//! either by redeeming a one-time token or by an operator who types the code
//! that the node shows. Once bound, each heartbeat carries a signature and a
//! timestamp that must strictly increase.
//!
//! Time and randomness come in as arguments: every decision here is a function
//! of the state, the request, the clock reading and the drawn values.

use vstd::prelude::*;

use crate::crypto::{
    base64_decode, base64_encode, ct_eq, ed25519_key, ed25519_signed, exactly, random_bytes, sha256,
};
use crate::table::Table;
use crate::text::{ascii_uppercase, cat2, cat3, decimal_text, split_once, str_eq, trim, CharClass};

verus! {

/// The lifetime of an enrolment token when the operator names none, in seconds.
pub const DEFAULT_TOKEN_TTL_SECS: u64 = 3_600;

/// The shortest accepted token lifetime, in seconds.
pub const MIN_TOKEN_TTL_SECS: u64 = 60;

/// The longest accepted token lifetime, in seconds (seven days).
pub const MAX_TOKEN_TTL_SECS: u64 = 604_800;

/// The cadence at which a node is told to send heartbeats, in seconds.
pub const HEARTBEAT_SECS: u64 = 10;

/// How long a pairing node waits before it polls again, in seconds.
pub const PAIRING_RETRY_SECS: u64 = 5;

/// How far a heartbeat's timestamp may be from the clock, in seconds.
pub const HEARTBEAT_FRESHNESS_SECS: u64 = 300;

/// How many pairing requests may be pending at once.
pub const MAX_PENDING_PAIRINGS: usize = 32;

/// The length of a pairing code.
pub const CODE_LEN: usize = 6;

/// How many codes are drawn before one is taken from the list of spare codes.
pub const CODE_TRIES: usize = 8;

// ---- Tokens ------------------------------------------------------------------

/// The lifecycle state of an enrolment token.
#[derive(Debug, Clone, Copy, PartialEq, Eq, Structural)]
pub enum TokenState {
    /// Minted; neither redeemed, revoked nor expired.
    Pending,
    /// Redeemed by a node.
    Used,
    /// Revoked by an operator.
    Revoked,
    /// Past its lifetime.
    Expired,
}

/// A token at rest: the hash of its secret, its timing and what became of it.
pub struct TokenRecord {
    /// SHA-256 of the secret.
    secret_hash: Vec<u8>,
    /// When it was minted (epoch seconds).
    created_epoch_s: u64,
    /// When it expires (epoch seconds).
    expires_epoch_s: u64,
    /// Whether an operator revoked it.
    revoked: bool,
    /// The device that redeemed it.
    used_by: Option<String>,
}

/// What a token record says.
pub struct TokenView {
    /// SHA-256 of the secret.
    pub secret_hash: Seq<u8>,
    /// When it was minted (epoch seconds).
    pub created_epoch_s: u64,
    /// When it expires (epoch seconds).
    pub expires_epoch_s: u64,
    /// Whether an operator revoked it.
    pub revoked: bool,
    /// The device that redeemed it.
    pub used_by: Option<Seq<char>>,
}

impl TokenView {
    /// The state at `now_s`: redeemed wins over revoked, revoked over expired.
    pub open spec fn state_at(self, now_s: u64) -> TokenState {
        if self.used_by is Some {
            TokenState::Used
        } else if self.revoked {
            TokenState::Revoked
        } else if now_s >= self.expires_epoch_s {
            TokenState::Expired
        } else {
            TokenState::Pending
        }
    }
}

impl TokenRecord {
    /// What the record says.
    pub closed spec fn view(self) -> TokenView {
        TokenView {
            secret_hash: self.secret_hash@,
            created_epoch_s: self.created_epoch_s,
            expires_epoch_s: self.expires_epoch_s,
            revoked: self.revoked,
            used_by: crate::text::text_opt(self.used_by),
        }
    }

    /// The state at `now_s`. Expiry is read off the clock; nothing is swept.
    pub fn state(&self, now_s: u64) -> (r: TokenState)
        ensures
            r == self@.state_at(now_s),
    {
        if self.used_by.is_some() {
            TokenState::Used
        } else if self.revoked {
            TokenState::Revoked
        } else if now_s >= self.expires_epoch_s {
            TokenState::Expired
        } else {
            TokenState::Pending
        }
    }

    /// Whether the token can still be redeemed at `now_s`.
    pub fn is_redeemable(&self, now_s: u64) -> (r: bool)
        ensures
            r == (self@.state_at(now_s) == TokenState::Pending),
    {
        self.state(now_s) == TokenState::Pending
    }
}

/// What an operator sees of a token; never its secret.
#[derive(Debug, PartialEq, Eq)]
pub struct TokenSummary {
    /// The token id.
    pub token_id: String,
    /// Its state.
    pub state: TokenState,
    /// When it was minted (epoch seconds).
    pub created_epoch_s: u64,
    /// When it expires (epoch seconds).
    pub expires_epoch_s: u64,
    /// The device that redeemed it.
    pub used_by: Option<String>,
}

/// The reply to a mint: the one time the bearer secret is shown.
#[derive(Debug, PartialEq, Eq)]
pub struct MintedToken {
    /// The token id.
    pub token_id: String,
    /// The bearer token, `<token_id>.<secret>`.
    pub token: String,
    /// When it was minted (epoch seconds).
    pub created_epoch_s: u64,
    /// When it expires (epoch seconds).
    pub expires_epoch_s: u64,
}

// ---- Nodes -------------------------------------------------------------------

/// One display head that a node reported.
#[derive(Debug, PartialEq, Eq)]
pub struct DisplayHead {
    /// A stable head id within the node.
    pub id: String,
    /// The connector that drives the head.
    pub connector: String,
    /// Width in pixels.
    pub width: u32,
    /// Height in pixels.
    pub height: u32,
    /// Refresh rate in millihertz.
    pub refresh_millihertz: u32,
    /// Whether a sink is connected.
    pub connected: bool,
}

impl Clone for DisplayHead {
    fn clone(&self) -> (r: Self)
        ensures
            r == *self,
    {
        DisplayHead {
            id: self.id.clone(),
            connector: self.connector.clone(),
            width: self.width,
            height: self.height,
            refresh_millihertz: self.refresh_millihertz,
            connected: self.connected,
        }
    }
}

/// A copy of a list of heads.
pub fn clone_heads(heads: &Vec<DisplayHead>) -> (r: Vec<DisplayHead>)
    ensures
        r@ == heads@,
{
    let mut out: Vec<DisplayHead> = Vec::new();
    let mut i: usize = 0;
    while i < heads.len()
        invariant
            i <= heads.len(),
            out@ == heads@.take(i as int),
        decreases heads.len() - i,
    {
        out.push(heads[i].clone());
        assert(heads@.take(i + 1) =~= heads@.take(i as int).push(heads@[i as int]));
        i += 1;
    }
    assert(heads@.take(i as int) =~= heads@);
    out
}

/// The identity of an enrolled node.
pub struct NodeIdentity {
    /// The Ed25519 public key, thirty-two bytes.
    public_key: [u8; 32],
    /// The highest heartbeat timestamp accepted so far (epoch seconds).
    last_ts: u64,
    /// The heads last reported.
    heads: Vec<DisplayHead>,
}

/// What a node identity says.
pub struct IdentityView {
    /// The Ed25519 public key.
    pub public_key: Seq<u8>,
    /// The highest heartbeat timestamp accepted so far (epoch seconds).
    pub last_ts: u64,
    /// The heads last reported.
    pub heads: Seq<DisplayHead>,
}

impl NodeIdentity {
    /// What the identity says.
    pub closed spec fn view(self) -> IdentityView {
        IdentityView { public_key: self.public_key@, last_ts: self.last_ts, heads: self.heads@ }
    }
}

/// A node that shows a pairing code and waits for an operator.
pub struct PendingPairing {
    /// The code on the node's screen.
    code: String,
    /// The node's public key.
    public_key: [u8; 32],
    /// The reported model.
    model: String,
    /// The reported name.
    node_name: String,
    /// The reported heads.
    heads: Vec<DisplayHead>,
    /// When the request first pended (epoch seconds).
    created_epoch_s: u64,
    /// The device id that the operator chose.
    paired_device_id: Option<String>,
}

/// What a pending pairing says.
pub struct PendingView {
    /// The code on the node's screen.
    pub code: Seq<char>,
    /// The node's public key.
    pub public_key: Seq<u8>,
    /// The reported model.
    pub model: Seq<char>,
    /// The reported name.
    pub node_name: Seq<char>,
    /// The reported heads.
    pub heads: Seq<DisplayHead>,
    /// When the request first pended (epoch seconds).
    pub created_epoch_s: u64,
    /// The device id that the operator chose.
    pub paired_device_id: Option<Seq<char>>,
}

impl PendingPairing {
    /// What the pairing says.
    pub closed spec fn view(self) -> PendingView {
        PendingView {
            code: self.code@,
            public_key: self.public_key@,
            model: self.model@,
            node_name: self.node_name@,
            heads: self.heads@,
            created_epoch_s: self.created_epoch_s,
            paired_device_id: crate::text::text_opt(self.paired_device_id),
        }
    }
}

/// What an operator sees of a pending pairing: neither the code nor the key.
#[derive(Debug, PartialEq, Eq)]
pub struct PairingRequestSummary {
    /// The fingerprint of the node's key.
    pub fingerprint: String,
    /// The reported model.
    pub model: String,
    /// The reported name.
    pub node_name: String,
    /// When the request first pended (epoch seconds).
    pub created_epoch_s: u64,
}

/// The answer to an enrolment request.
#[derive(Debug, PartialEq, Eq)]
pub enum EnrollOutcome {
    /// The node is bound to a device and should send heartbeats.
    Enrolled {
        /// The device id.
        device_id: String,
        /// The heartbeat cadence in seconds.
        heartbeat_secs: u64,
    },
    /// The node must show a code and poll again.
    Pairing {
        /// The code to show.
        pairing_code: String,
        /// The delay before the next poll, in seconds.
        retry_secs: u64,
    },
}

/// Why an enrolment, a pairing or a heartbeat was refused.
#[derive(Debug, PartialEq, Eq)]
pub enum EnrollError {
    /// The token is unknown, revoked, expired or already redeemed.
    TokenRejected,
    /// A field was malformed; the text names it.
    Invalid(String),
    /// The table of pending pairings is full.
    PairingTableFull,
    /// A heartbeat did not verify.
    Unauthorized,
}

/// The outcome of completing a pairing.
#[derive(Debug, PartialEq, Eq)]
pub enum PairCompletion {
    /// The code matched a pending request, which is now assigned.
    Completed {
        /// The device id.
        device_id: String,
        /// The display name.
        node_name: String,
        /// The node's public key, in base64.
        public_key_b64: String,
        /// The reported heads.
        heads: Vec<DisplayHead>,
    },
    /// No pending request carries the code.
    NotFound,
}

/// A heartbeat that verified.
#[derive(Debug, PartialEq, Eq)]
pub struct VerifiedHeartbeat {
    /// The device that the heartbeat authenticated as.
    pub device_id: String,
    /// The heads that the node reported.
    pub heads: Vec<DisplayHead>,
    /// The heartbeat cadence to echo, in seconds.
    pub heartbeat_secs: u64,
}

/// What a node submits to enrol.
#[derive(Debug)]
pub struct EnrollRequest {
    /// The one-time token, or nothing for screen pairing.
    pub token: Option<String>,
    /// The node's public key, in base64.
    pub public_key: String,
    /// The hardware model.
    pub model: String,
    /// The node's name.
    pub node_name: String,
    /// The node's display heads.
    pub heads: Vec<DisplayHead>,
}

/// What an operator submits to pair a node.
#[derive(Debug)]
pub struct PairRequest {
    /// The code read off the screen.
    pub code: String,
    /// The device id to assign.
    pub device_id: Option<String>,
    /// A display name for the device.
    pub display_name: Option<String>,
}

// ---- Text forms --------------------------------------------------------------

/// The lower-case hex digit of `n`, for `n` below sixteen.
pub open spec fn hex_digit(n: int) -> char {
    if n == 0 { '0' } else if n == 1 { '1' } else if n == 2 { '2' } else if n == 3 { '3' }
    else if n == 4 { '4' } else if n == 5 { '5' } else if n == 6 { '6' } else if n == 7 { '7' }
    else if n == 8 { '8' } else if n == 9 { '9' } else if n == 10 { 'a' } else if n == 11 { 'b' }
    else if n == 12 { 'c' } else if n == 13 { 'd' } else if n == 14 { 'e' } else { 'f' }
}

/// The lower-case hex text of `bytes`.
pub open spec fn hex_of(bytes: Seq<u8>) -> Seq<char>
    decreases bytes.len(),
{
    if bytes.len() == 0 {
        Seq::empty()
    } else {
        hex_of(bytes.drop_last()).push(hex_digit(bytes.last() as int / 16)).push(
            hex_digit(bytes.last() as int % 16),
        )
    }
}

fn hex_char(n: u8) -> (r: char)
    requires
        n < 16,
    ensures
        r == hex_digit(n as int),
{
    match n {
        0 => '0',
        1 => '1',
        2 => '2',
        3 => '3',
        4 => '4',
        5 => '5',
        6 => '6',
        7 => '7',
        8 => '8',
        9 => '9',
        10 => 'a',
        11 => 'b',
        12 => 'c',
        13 => 'd',
        14 => 'e',
        _ => 'f',
    }
}

/// The hex text has two digits per byte, each a lower-case hex digit.
pub proof fn lemma_hex(bytes: Seq<u8>)
    ensures
        hex_of(bytes).len() == 2 * bytes.len(),
        forall|i: int|
            0 <= i < hex_of(bytes).len() ==> ('0' <= #[trigger] hex_of(bytes)[i] <= '9') || ('a'
                <= hex_of(bytes)[i] <= 'f'),
    decreases bytes.len(),
{
    if bytes.len() > 0 {
        lemma_hex(bytes.drop_last());
    }
}

/// The lower-case hex text of `bytes`.
pub fn hex_lower(bytes: &[u8]) -> (r: String)
    ensures
        r@ == hex_of(bytes@),
{
    let mut out = String::new();
    let mut i: usize = 0;
    assert(bytes@.take(0) =~= Seq::<u8>::empty());
    while i < bytes.len()
        invariant
            i <= bytes.len(),
            out@ == hex_of(bytes@.take(i as int)),
        decreases bytes.len() - i,
    {
        let b: u8 = bytes[i];
        out.push(hex_char(b / 16));
        out.push(hex_char(b % 16));
        assert(bytes@.take(i + 1).drop_last() =~= bytes@.take(i as int));
        i += 1;
    }
    assert(bytes@.take(i as int) =~= bytes@);
    out
}

/// The message that a node signs: the method, the path, the device id, the
/// timestamp and the hash of the body, one to a line.
pub open spec fn canonical_of(
    method: Seq<char>,
    path: Seq<char>,
    device_id: Seq<char>,
    ts: u64,
    body: Seq<u8>,
) -> Seq<char> {
    method + seq!['\n'] + path + seq!['\n'] + device_id + seq!['\n'] + crate::text::decimal(ts as nat)
        + seq!['\n'] + hex_of(crate::crypto::sha256_of(body))
}

/// The message that a node signs.
pub fn canonical_message(method: &str, path: &str, device_id: &str, ts: u64, body: &[u8]) -> (r: String)
    ensures
        r@ == canonical_of(method@, path@, device_id@, ts, body@),
{
    let digest = sha256(body);
    let hex = hex_lower(digest.as_slice());
    let stamp = decimal_text(ts);
    let mut out = method.to_owned();
    out.push('\n');
    out.append(path);
    out.push('\n');
    out.append(device_id);
    out.push('\n');
    out.append(stamp.as_str());
    out.push('\n');
    out.append(hex.as_str());
    assert(out@ =~= canonical_of(method@, path@, device_id@, ts, body@));
    out
}

/// The fingerprint of a key: the first sixteen hex digits of its SHA-256.
pub open spec fn fingerprint_of(key: Seq<u8>) -> Seq<char> {
    hex_of(crate::crypto::sha256_of(key)).take(16)
}

/// The fingerprint of a key.
pub fn key_fingerprint(key: &[u8; 32]) -> (r: String)
    ensures
        r@ == fingerprint_of(key@),
{
    let digest = sha256(key.as_slice());
    let hex = hex_lower(digest.as_slice());
    proof {
        lemma_hex(digest@);
    }
    let head = hex.as_str().substring_char(0, 16);
    assert(head@ =~= fingerprint_of(key@));
    head.to_owned()
}

// ---- Keys and signatures -----------------------------------------------------

/// What a submitted public key denotes.
pub enum KeyView {
    /// A valid key.
    Key(Seq<u8>),
    /// Not base64.
    NotBase64,
    /// Not thirty-two bytes.
    WrongLength,
    /// Thirty-two bytes that are no key.
    NotAKey,
}

/// What a submitted key denotes, given what its base64 denotes and which
/// thirty-two bytes are keys.
pub open spec fn key_of(decoded: Option<Seq<u8>>) -> KeyView {
    match decoded {
        None => KeyView::NotBase64,
        Some(bytes) => if bytes.len() != 32 {
            KeyView::WrongLength
        } else if crate::crypto::ed25519_key_of(bytes) {
            KeyView::Key(bytes)
        } else {
            KeyView::NotAKey
        },
    }
}

/// What a submitted key text denotes: base64, with white space around it.
pub open spec fn submitted_key(text: Seq<char>) -> KeyView {
    key_of(crate::crypto::base64_decoded_of(crate::text::trim_of(text, CharClass::White)))
}

/// How a text that denotes no key is refused.
pub open spec fn key_refusal(v: KeyView) -> Seq<char> {
    match v {
        KeyView::NotBase64 => "public_key is not valid base64"@,
        KeyView::WrongLength => "public_key must be 32 bytes"@,
        _ => "public_key is not a valid Ed25519 key"@,
    }
}

/// The result of reading a key is what the key denotes.
pub open spec fn key_result(r: Result<[u8; 32], EnrollError>, v: KeyView) -> bool {
    match v {
        KeyView::Key(bytes) => r matches Ok(k) && k@ == bytes,
        refused => r matches Err(EnrollError::Invalid(t)) && t@ == key_refusal(refused),
    }
}

/// The key in what the base64 text of a submitted key denotes.
pub fn key_from_decoded(decoded: Option<Vec<u8>>) -> (r: Result<[u8; 32], EnrollError>)
    ensures
        key_result(
            r,
            key_of(
                match decoded {
                    Some(bytes) => Some(bytes@),
                    None => None,
                },
            ),
        ),
{
    match decoded {
        None => Err(EnrollError::Invalid("public_key is not valid base64".to_owned())),
        Some(bytes) => match exactly::<32>(bytes.as_slice()) {
            None => Err(EnrollError::Invalid("public_key must be 32 bytes".to_owned())),
            Some(key) => if ed25519_key(&key) {
                Ok(key)
            } else {
                Err(EnrollError::Invalid("public_key is not a valid Ed25519 key".to_owned()))
            },
        },
    }
}

/// Read a node's public key from base64.
pub fn parse_public_key(b64: &str) -> (r: Result<[u8; 32], EnrollError>)
    ensures
        key_result(r, submitted_key(b64@)),
{
    key_from_decoded(base64_decode(trim(b64, CharClass::White)))
}

/// The signature in what the base64 text of a signature denotes: sixty-four
/// bytes, or none.
pub open spec fn signature_of(decoded: Option<Seq<u8>>) -> Option<Seq<u8>> {
    match decoded {
        Some(bytes) => if bytes.len() == 64 {
            Some(bytes)
        } else {
            None
        },
        None => None,
    }
}

/// What a submitted signature text denotes.
pub open spec fn submitted_signature(text: Seq<char>) -> Option<Seq<u8>> {
    signature_of(crate::crypto::base64_decoded_of(crate::text::trim_of(text, CharClass::White)))
}

/// The signature in what the base64 text of a signature denotes.
pub fn signature_from_decoded(decoded: Option<Vec<u8>>) -> (r: Option<[u8; 64]>)
    ensures
        ({
            let d = match decoded {
                Some(bytes) => Some(bytes@),
                None => None,
            };
            match r {
                Some(s) => signature_of(d) == Some(s@),
                None => signature_of(d) is None,
            }
        }),
{
    match decoded {
        Some(bytes) => exactly::<64>(bytes.as_slice()),
        None => None,
    }
}

/// Read an Ed25519 signature from base64.
pub fn parse_signature(b64: &str) -> (r: Option<[u8; 64]>)
    ensures
        match r {
            Some(s) => submitted_signature(b64@) == Some(s@),
            None => submitted_signature(b64@) is None,
        },
{
    signature_from_decoded(base64_decode(trim(b64, CharClass::White)))
}

// ---- Drawn values ------------------------------------------------------------

/// Byte `i` of the value that stands in for randomness when there is none: the
/// bytes of the clock reading, lowest first, over and over.
pub open spec fn clock_byte(now_ms: u64, i: int) -> u8 {
    ((now_ms >> (((i % 8) * 8) as u64)) & 0xff) as u8
}

/// `n` bytes of the clock reading.
pub fn clock_bytes(now_ms: u64, n: usize) -> (r: Vec<u8>)
    ensures
        r@.len() == n,
        forall|i: int| 0 <= i < n ==> #[trigger] r@[i] == clock_byte(now_ms, i),
{
    let mut out: Vec<u8> = Vec::new();
    let mut i: usize = 0;
    while i < n
        invariant
            i <= n,
            out@.len() == i,
            forall|j: int| 0 <= j < i ==> #[trigger] out@[j] == clock_byte(now_ms, j),
        decreases n - i,
    {
        let shift: u64 = (i % 8) as u64 * 8;
        let b: u8 = ((now_ms >> shift) & 0xff) as u8;
        assert(shift == (((i as int) % 8) * 8) as u64);
        out.push(b);
        i += 1;
    }
    out
}

/// `n` random bytes; bytes of the clock reading where there are none.
fn drawn_bytes(n: usize, now_ms: u64) -> (r: Vec<u8>)
    ensures
        r@.len() == n,
{
    match random_bytes(n) {
        Some(bytes) => bytes,
        None => clock_bytes(now_ms, n),
    }
}

/// Whether `text` is the hex of `n` bytes.
pub open spec fn drawn_hex(text: Seq<char>, n: nat) -> bool {
    exists|bytes: Seq<u8>| bytes.len() == n && text == #[trigger] hex_of(bytes)
}

/// Whether `id` is `prefix` followed by the hex of eight bytes.
pub open spec fn drawn_id(id: Seq<char>, prefix: Seq<char>) -> bool {
    exists|hex: Seq<char>| #[trigger] drawn_hex(hex, 8) && id == prefix + hex
}

/// `n` drawn bytes as lower-case hex: two digits for each byte.
pub fn random_hex(n: usize, now_ms: u64) -> (r: String)
    ensures
        drawn_hex(r@, n as nat),
        r@.len() == 2 * n,
{
    let bytes = drawn_bytes(n, now_ms);
    proof {
        lemma_hex(bytes@);
    }
    hex_lower(bytes.as_slice())
}

/// The letters and digits of a pairing code. The ones that look alike on a
/// screen (zero, one, I and O) are left out.
pub open spec fn code_alphabet() -> Seq<char> {
    "ABCDEFGHJKLMNPQRSTUVWXYZ23456789"@
}

/// The pairing code that bytes denote: one character of the alphabet for each.
pub open spec fn code_of(bytes: Seq<u8>) -> Seq<char> {
    bytes.map_values(|b: u8| code_alphabet()[b as int % 32])
}

/// Whether `code` could be drawn.
pub open spec fn is_code(code: Seq<char>) -> bool {
    exists|bytes: Seq<u8>| bytes.len() == CODE_LEN && code == #[trigger] code_of(bytes)
}

/// The pairing code that bytes denote.
pub fn code_from_bytes(bytes: &[u8]) -> (r: String)
    ensures
        r@ == code_of(bytes@),
{
    let alphabet = "ABCDEFGHJKLMNPQRSTUVWXYZ23456789";
    proof {
        reveal_strlit("ABCDEFGHJKLMNPQRSTUVWXYZ23456789");
    }
    let mut out = String::new();
    let mut i: usize = 0;
    while i < bytes.len()
        invariant
            i <= bytes.len(),
            alphabet@ == code_alphabet(),
            alphabet@.len() == 32,
            out@ == code_of(bytes@.take(i as int)),
        decreases bytes.len() - i,
    {
        let k: usize = (bytes[i] % 32) as usize;
        out.push(alphabet.get_char(k));
        assert(bytes@.take(i + 1) =~= bytes@.take(i as int).push(bytes@[i as int]));
        assert(out@ =~= code_of(bytes@.take(i + 1)));
        i += 1;
    }
    assert(bytes@.take(i as int) =~= bytes@);
    out
}

/// A drawn pairing code.
pub fn random_code(now_ms: u64) -> (r: String)
    ensures
        is_code(r@),
        r@.len() == CODE_LEN,
{
    let bytes = drawn_bytes(CODE_LEN, now_ms);
    code_from_bytes(bytes.as_slice())
}

// ---- State -------------------------------------------------------------------

/// What the enrolment state holds.
#[verifier::ext_equal]
pub struct EnrollView {
    /// The minted tokens, by token id.
    pub tokens: Map<Seq<char>, TokenView>,
    /// The pending pairings, by key fingerprint.
    pub pending: Map<Seq<char>, PendingView>,
    /// The bound identities, by device id.
    pub identities: Map<Seq<char>, IdentityView>,
}

impl EnrollView {
    /// What every reachable state keeps: no key is bound to two devices, every
    /// pending pairing stands under the fingerprint of its key, and at most
    /// [`MAX_PENDING_PAIRINGS`] are pending.
    pub open spec fn wf(self) -> bool {
        &&& forall|a: Seq<char>, b: Seq<char>|
            #![trigger self.identities[a], self.identities[b]]
            self.identities.contains_key(a) && self.identities.contains_key(b)
                && self.identities[a].public_key == self.identities[b].public_key ==> a == b
        &&& forall|f: Seq<char>| #[trigger]
            self.pending.contains_key(f) ==> f == fingerprint_of(self.pending[f].public_key)
        &&& self.pending.dom().finite()
        &&& self.pending.dom().len() <= MAX_PENDING_PAIRINGS
    }

    /// The device that `key` is bound to.
    pub open spec fn holder(self, key: Seq<u8>) -> Option<Seq<char>> {
        if exists|d: Seq<char>| self.bound(d, key) {
            Some(choose|d: Seq<char>| self.bound(d, key))
        } else {
            None
        }
    }

    /// Whether `key` is bound to device `d`.
    pub open spec fn bound(self, d: Seq<char>, key: Seq<u8>) -> bool {
        self.identities.contains_key(d) && self.identities[d].public_key == key
    }

    /// The codes on screen.
    pub open spec fn shows(self, code: Seq<char>) -> bool {
        exists|f: Seq<char>| self.shown_at(f, code)
    }

    /// Whether the pairing under `f` shows `code`.
    pub open spec fn shown_at(self, f: Seq<char>, code: Seq<char>) -> bool {
        self.pending.contains_key(f) && self.pending[f].code == code
    }
}

/// The display-node enrolment state.
pub struct NodeEnrollState {
    tokens: Table<TokenRecord>,
    pending: Table<PendingPairing>,
    identities: Table<NodeIdentity>,
    /// How many ids were drawn.
    seq: u64,
}

impl NodeEnrollState {
    /// What the state holds.
    pub closed spec fn view(self) -> EnrollView {
        EnrollView {
            tokens: self.tokens@.map_values(|t: TokenRecord| t@),
            pending: self.pending@.map_values(|p: PendingPairing| p@),
            identities: self.identities@.map_values(|n: NodeIdentity| n@),
        }
    }

    /// The state is one that the operations below can reach.
    pub closed spec fn wf(self) -> bool {
        &&& self.tokens.wf()
        &&& self.pending.wf()
        &&& self.identities.wf()
        &&& self@.wf()
    }

    /// A reachable state keeps the invariant of its view.
    pub proof fn lemma_wf(self)
        requires
            self.wf(),
        ensures
            self@.wf(),
    {
    }

    /// A fresh state: no token, no pairing, no identity.
    pub fn new() -> (r: Self)
        ensures
            r.wf(),
            r@ == (EnrollView {
                tokens: Map::empty(),
                pending: Map::empty(),
                identities: Map::empty(),
            }),
    {
        let r = NodeEnrollState {
            tokens: Table::new(),
            pending: Table::new(),
            identities: Table::new(),
            seq: 0,
        };
        assert(r@.tokens =~= Map::empty());
        assert(r@.pending =~= Map::empty());
        assert(r@.identities =~= Map::empty());
        r
    }
}

// ---- Minting and listing -----------------------------------------------------

/// `a + b`, at most the largest `u64`.
pub open spec fn saturating_sum(a: u64, b: u64) -> u64 {
    if a + b > u64::MAX {
        u64::MAX
    } else {
        (a + b) as u64
    }
}

/// The lifetime that a mint request asks for.
pub open spec fn requested_ttl(ttl_secs: Option<u64>) -> u64 {
    match ttl_secs {
        Some(ttl) => ttl,
        None => DEFAULT_TOKEN_TTL_SECS,
    }
}

/// Whether a token may live that long.
pub open spec fn ttl_ok(ttl: u64) -> bool {
    MIN_TOKEN_TTL_SECS <= ttl <= MAX_TOKEN_TTL_SECS
}

/// The refusal of a lifetime.
pub open spec fn ttl_message(ttl: u64) -> Seq<char> {
    "ttl_secs "@ + crate::text::decimal(ttl as nat) + " is out of range (60..=604800)"@
}

/// The bytes of a text.
pub open spec fn bytes_of(text: Seq<char>) -> Seq<u8> {
    vstd::utf8::encode_utf8(text)
}

/// What a mint leaves behind and answers, given the clock and what was drawn.
pub open spec fn mint_effect(
    before: EnrollView,
    after: EnrollView,
    ttl_secs: Option<u64>,
    now_s: u64,
    token_id: Seq<char>,
    secret: Seq<char>,
    r: Result<MintedToken, EnrollError>,
) -> bool {
    let ttl = requested_ttl(ttl_secs);
    if ttl_ok(ttl) {
        &&& after == (EnrollView {
            tokens: before.tokens.insert(
                token_id,
                TokenView {
                    secret_hash: crate::crypto::sha256_of(bytes_of(secret)),
                    created_epoch_s: now_s,
                    expires_epoch_s: saturating_sum(now_s, ttl),
                    revoked: false,
                    used_by: None,
                },
            ),
            ..before
        })
        &&& r matches Ok(t)
        &&& t.token_id@ == token_id
        &&& t.token@ == token_id + seq!['.'] + secret
        &&& t.created_epoch_s == now_s
        &&& t.expires_epoch_s == saturating_sum(now_s, ttl)
    } else {
        &&& after == before
        &&& r matches Err(EnrollError::Invalid(t))
        &&& t@ == ttl_message(ttl)
    }
}

/// The token ids of a listing.
pub open spec fn listed_ids(rows: Seq<TokenSummary>) -> Seq<Seq<char>> {
    rows.map_values(|t: TokenSummary| t.token_id@)
}

/// Whether a listing row says what the token says at `now_s`.
pub open spec fn summary_of(row: TokenSummary, t: TokenView, now_s: u64) -> bool {
    &&& row.state == t.state_at(now_s)
    &&& row.created_epoch_s == t.created_epoch_s
    &&& row.expires_epoch_s == t.expires_epoch_s
    &&& crate::text::text_opt(row.used_by) == t.used_by
}

impl NodeEnrollState {
    /// Mint a one-time token whose id and secret were drawn by the caller.
    pub fn mint_token_with(
        &mut self,
        ttl_secs: Option<u64>,
        now_ms: u64,
        token_id: String,
        secret: String,
    ) -> (r: Result<MintedToken, EnrollError>)
        requires
            old(self).wf(),
        ensures
            final(self).wf(),
            mint_effect(old(self)@, final(self)@, ttl_secs, (now_ms / 1000) as u64, token_id@, secret@, r),
    {
        let ttl: u64 = match ttl_secs {
            Some(t) => t,
            None => DEFAULT_TOKEN_TTL_SECS,
        };
        if ttl < MIN_TOKEN_TTL_SECS || ttl > MAX_TOKEN_TTL_SECS {
            let n = decimal_text(ttl);
            return Err(
                EnrollError::Invalid(cat3("ttl_secs ", n.as_str(), " is out of range (60..=604800)")),
            );
        }
        let ghost before = self@;
        let now: u64 = now_ms / 1000;
        self.seq = self.seq.wrapping_add(1);
        let mut bearer = token_id.clone();
        bearer.push('.');
        bearer.append(secret.as_str());
        assert(bearer@ =~= token_id@ + seq!['.'] + secret@);
        let secret_hash = sha256(secret.as_str().as_bytes());
        let expires: u64 = now.saturating_add(ttl);
        let record = TokenRecord {
            secret_hash,
            created_epoch_s: now,
            expires_epoch_s: expires,
            revoked: false,
            used_by: None,
        };
        let ghost rv = record@;
        self.tokens.insert(token_id.clone(), record);
        assert(self@.tokens =~= before.tokens.insert(token_id@, rv));
        assert(self@.pending =~= before.pending);
        assert(self@.identities =~= before.identities);
        Ok(MintedToken { token_id, token: bearer, created_epoch_s: now, expires_epoch_s: expires })
    }

    /// Mint a one-time token. The id is drawn from eight random bytes and the
    /// secret from thirty-two; the secret is handed out here and only its hash
    /// is kept.
    pub fn mint_token(&mut self, ttl_secs: Option<u64>, now_ms: u64) -> (r: Result<
        MintedToken,
        EnrollError,
    >)
        requires
            old(self).wf(),
        ensures
            final(self).wf(),
            exists|token_id: Seq<char>, secret: Seq<char>|
                #[trigger] drawn_id(token_id, "enr-"@) && #[trigger] drawn_hex(secret, 32)
                    && mint_effect(
                    old(self)@,
                    final(self)@,
                    ttl_secs,
                    (now_ms / 1000) as u64,
                    token_id,
                    secret,
                    r,
                ),
    {
        let id_hex = random_hex(8, now_ms);
        let token_id = cat2("enr-", id_hex.as_str());
        let secret = random_hex(32, now_ms);
        assert(drawn_id(token_id@, "enr-"@));
        self.mint_token_with(ttl_secs, now_ms, token_id, secret)
    }

    /// Every token, in id order. The secret is not among what is shown.
    pub fn list_tokens(&self, now_ms: u64) -> (r: Vec<TokenSummary>)
        requires
            self.wf(),
        ensures
            crate::table::strictly_sorted(listed_ids(r@)),
            forall|k: Seq<char>| listed_ids(r@).contains(k) <==> self@.tokens.contains_key(k),
            forall|i: int|
                0 <= i < r@.len() ==> summary_of(
                    #[trigger] r@[i],
                    self@.tokens[r@[i].token_id@],
                    (now_ms / 1000) as u64,
                ),
    {
        let now: u64 = now_ms / 1000;
        let mut out: Vec<TokenSummary> = Vec::new();
        let mut i: usize = 0;
        proof {
            self.tokens.lemma_rows();
        }
        while i < self.tokens.len()
            invariant
                self.wf(),
                i <= self.tokens.keys().len(),
                self.tokens.keys().len() == self.tokens.values().len(),
                forall|j: int|
                    0 <= j < self.tokens.keys().len() ==> self.tokens@.contains_key(
                        #[trigger] self.tokens.keys()[j],
                    ) && self.tokens@[self.tokens.keys()[j]] == self.tokens.values()[j],
                listed_ids(out@) == self.tokens.keys().take(i as int),
                now == (now_ms / 1000) as u64,
                forall|j: int|
                    0 <= j < out@.len() ==> summary_of(
                        #[trigger] out@[j],
                        self@.tokens[out@[j].token_id@],
                        now,
                    ),
            decreases self.tokens.keys().len() - i,
        {
            let id = self.tokens.key_at(i);
            let t = self.tokens.value_at(i);
            let used_by = match &t.used_by {
                Some(d) => Some(d.clone()),
                None => None,
            };
            let row = TokenSummary {
                token_id: id.clone(),
                state: t.state(now),
                created_epoch_s: t.created_epoch_s,
                expires_epoch_s: t.expires_epoch_s,
                used_by,
            };
            assert(self.tokens@.contains_key(self.tokens.keys()[i as int]));
            assert(summary_of(row, self@.tokens[row.token_id@], now));
            let ghost rows = out@;
            out.push(row);
            assert(listed_ids(out@) =~= listed_ids(rows).push(row.token_id@));
            assert(self.tokens.keys().take(i + 1) =~= self.tokens.keys().take(i as int).push(
                self.tokens.keys()[i as int],
            ));
            i += 1;
        }
        assert(self.tokens.keys().take(i as int) =~= self.tokens.keys());
        out
    }

    /// Revoke a token. Answers whether a token has that id.
    pub fn revoke_token(&mut self, token_id: &str) -> (r: bool)
        requires
            old(self).wf(),
        ensures
            final(self).wf(),
            r == old(self)@.tokens.contains_key(token_id@),
            !r ==> final(self)@ == old(self)@,
            r ==> final(self)@ == (EnrollView {
                tokens: old(self)@.tokens.insert(
                    token_id@,
                    TokenView { revoked: true, ..old(self)@.tokens[token_id@] },
                ),
                ..old(self)@
            }),
    {
        let ghost before = self@;
        match self.tokens.remove(token_id) {
            Some(record) => {
                let mut record = record;
                record.revoked = true;
                self.tokens.insert(token_id.to_owned(), record);
                assert(self@.tokens =~= before.tokens.insert(
                    token_id@,
                    TokenView { revoked: true, ..before.tokens[token_id@] },
                ));
                true
            },
            None => false,
        }
    }
}

// ---- Enrolling ---------------------------------------------------------------

/// What the answer to an enrolment request says.
pub enum EnrollReply {
    /// Bound to this device.
    Enrolled(Seq<char>),
    /// Show this code.
    Pairing(Seq<char>),
    /// The token was refused.
    TokenRejected,
    /// The table of pending pairings is full.
    Full,
}

/// The result says what the reply says.
pub open spec fn reply_is(r: Result<EnrollOutcome, EnrollError>, reply: EnrollReply) -> bool {
    match reply {
        EnrollReply::Enrolled(device) => r matches Ok(
            EnrollOutcome::Enrolled { device_id, heartbeat_secs },
        ) && device_id@ == device && heartbeat_secs == HEARTBEAT_SECS,
        EnrollReply::Pairing(code) => r matches Ok(
            EnrollOutcome::Pairing { pairing_code, retry_secs },
        ) && pairing_code@ == code && retry_secs == PAIRING_RETRY_SECS,
        EnrollReply::TokenRejected => r matches Err(EnrollError::TokenRejected),
        EnrollReply::Full => r matches Err(EnrollError::PairingTableFull),
    }
}

/// The id of the token that `bearer` redeems at `now_s`: the bearer is
/// `<id>.<secret>`, the token has that secret's hash, and it is pending.
pub open spec fn redeemed(tokens: Map<Seq<char>, TokenView>, bearer: Seq<char>, now_s: u64) -> Option<
    Seq<char>,
> {
    match crate::text::split_first(bearer, '.') {
        Some((id, secret)) => if tokens.contains_key(id) && tokens[id].secret_hash == crate::crypto::sha256_of(
            bytes_of(secret),
        ) && tokens[id].state_at(now_s) == TokenState::Pending {
            Some(id)
        } else {
            None
        },
        None => None,
    }
}

/// What an enrolment request does and answers, given the clock, the device id
/// drawn for a redeemed token and the code drawn for a new pairing.
pub open spec fn enroll_effect(
    v: EnrollView,
    key: Seq<u8>,
    request: EnrollRequest,
    now_s: u64,
    drawn_device: Seq<char>,
    drawn_code: Seq<char>,
) -> (EnrollView, EnrollReply) {
    let f = fingerprint_of(key);
    match v.holder(key) {
        // A known key keeps its device, token or no token.
        Some(device) => (v, EnrollReply::Enrolled(device)),
        None => if v.pending.contains_key(f) && v.pending[f].paired_device_id is Some {
            // The operator has completed the pairing: bind.
            let device = v.pending[f].paired_device_id->0;
            (
                EnrollView {
                    pending: v.pending.remove(f),
                    identities: v.identities.insert(
                        device,
                        IdentityView { public_key: key, last_ts: 0, heads: v.pending[f].heads },
                    ),
                    ..v
                },
                EnrollReply::Enrolled(device),
            )
        } else {
            match request.token {
                Some(bearer) => match redeemed(v.tokens, bearer@, now_s) {
                    // A good token: use it up and bind.
                    Some(id) => (
                        EnrollView {
                            tokens: v.tokens.insert(
                                id,
                                TokenView { used_by: Some(drawn_device), ..v.tokens[id] },
                            ),
                            identities: v.identities.insert(
                                drawn_device,
                                IdentityView {
                                    public_key: key,
                                    last_ts: 0,
                                    heads: request.heads@,
                                },
                            ),
                            ..v
                        },
                        EnrollReply::Enrolled(drawn_device),
                    ),
                    None => (v, EnrollReply::TokenRejected),
                },
                None => if v.pending.contains_key(f) {
                    // A poll: the same code again.
                    (v, EnrollReply::Pairing(v.pending[f].code))
                } else if v.pending.dom().len() >= MAX_PENDING_PAIRINGS {
                    (v, EnrollReply::Full)
                } else {
                    (
                        EnrollView {
                            pending: v.pending.insert(
                                f,
                                PendingView {
                                    code: drawn_code,
                                    public_key: key,
                                    model: request.model@,
                                    node_name: request.node_name@,
                                    heads: request.heads@,
                                    created_epoch_s: now_s,
                                    paired_device_id: None,
                                },
                            ),
                            ..v
                        },
                        EnrollReply::Pairing(drawn_code),
                    )
                },
            }
        },
    }
}

/// Whether `code` is a code that no pending node shows.
pub open spec fn fresh_in(v: EnrollView, code: Seq<char>) -> bool {
    is_code(code) && !v.shows(code)
}

/// The bytes of the `n`th spare code.
pub open spec fn spare_bytes(n: int) -> Seq<u8> {
    seq![0u8, 0u8, 0u8, 0u8, (n / 32) as u8, (n % 32) as u8]
}

/// The `n`th spare code.
pub open spec fn spare_code_at(n: int) -> Seq<char> {
    code_of(spare_bytes(n))
}

/// No character stands twice in the alphabet of the codes.
proof fn lemma_alphabet_distinct(a: int, b: int)
    requires
        0 <= a < 32,
        0 <= b < 32,
        code_alphabet()[a] == code_alphabet()[b],
    ensures
        a == b,
{
    reveal_strlit("ABCDEFGHJKLMNPQRSTUVWXYZ23456789");
}

/// No spare code stands twice in the list.
proof fn lemma_spare_codes_distinct(a: int, b: int)
    requires
        0 <= a <= MAX_PENDING_PAIRINGS,
        0 <= b <= MAX_PENDING_PAIRINGS,
        spare_code_at(a) == spare_code_at(b),
    ensures
        a == b,
{
    let x = spare_code_at(a);
    let y = spare_code_at(b);
    assert(x[4] == code_alphabet()[a / 32] && x[5] == code_alphabet()[a % 32]);
    assert(y[4] == code_alphabet()[b / 32] && y[5] == code_alphabet()[b % 32]);
    lemma_alphabet_distinct(a / 32, b / 32);
    lemma_alphabet_distinct(a % 32, b % 32);
}

/// More spare codes are listed than nodes can show.
proof fn lemma_spare_code_left(v: EnrollView)
    requires
        v.wf(),
    ensures
        exists|n: int| 0 <= n <= MAX_PENDING_PAIRINGS && !v.shows(#[trigger] spare_code_at(n)),
{
    if forall|n: int| 0 <= n <= MAX_PENDING_PAIRINGS ==> v.shows(#[trigger] spare_code_at(n)) {
        let count = (MAX_PENDING_PAIRINGS + 1) as nat;
        let shower = |n: int| choose|f: Seq<char>| v.shown_at(f, spare_code_at(n));
        let showers = Seq::new(count, shower);
        assert forall|i: int| 0 <= i < count implies v.shown_at(
            #[trigger] showers[i],
            spare_code_at(i),
        ) by {
            assert(v.shows(spare_code_at(i)));
        }
        assert(showers.no_duplicates()) by {
            assert forall|i: int, j: int|
                0 <= i < count && 0 <= j < count && i != j implies showers[i] != showers[j] by {
                assert(v.shown_at(showers[i], spare_code_at(i)));
                assert(v.shown_at(showers[j], spare_code_at(j)));
                if showers[i] == showers[j] {
                    lemma_spare_codes_distinct(i, j);
                }
            }
        }
        showers.unique_seq_to_set();
        assert(showers.to_set().subset_of(v.pending.dom())) by {
            assert forall|f: Seq<char>| #[trigger]
                showers.to_set().contains(f) implies v.pending.dom().contains(f) by {
                let i = choose|i: int| 0 <= i < showers.len() && showers[i] == f;
                assert(v.shown_at(showers[i], spare_code_at(i)));
            }
        }
        vstd::set_lib::lemma_len_subset(showers.to_set(), v.pending.dom());
        assert(false);
    }
}

impl NodeEnrollState {
    /// The device that `key` is bound to.
    fn find_holder(&self, key: &[u8; 32]) -> (r: Option<String>)
        requires
            self.wf(),
        ensures
            match r {
                Some(d) => self@.holder(key@) == Some(d@),
                None => self@.holder(key@) is None,
            },
    {
        let mut i: usize = 0;
        proof {
            self.identities.lemma_rows();
        }
        while i < self.identities.len()
            invariant
                self.wf(),
                i <= self.identities.keys().len(),
                self.identities.keys().len() == self.identities.values().len(),
                forall|j: int|
                    0 <= j < self.identities.keys().len() ==> self.identities@.contains_key(
                        #[trigger] self.identities.keys()[j],
                    ) && self.identities@[self.identities.keys()[j]] == self.identities.values()[j],
                forall|k: Seq<char>|
                    self.identities@.contains_key(k) <==> self.identities.keys().contains(k),
                forall|j: int|
                    0 <= j < i ==> (#[trigger] self.identities.values()[j])@.public_key != key@,
            decreases self.identities.keys().len() - i,
        {
            let n = self.identities.value_at(i);
            if same_bytes(&n.public_key, key) {
                let d = self.identities.key_at(i);
                assert(self.identities@.contains_key(self.identities.keys()[i as int]));
                assert(self@.bound(d@, key@));
                let ghost h = self@.holder(key@)->0;
                assert(self@.bound(h, key@));
                assert(self@.identities[h].public_key == self@.identities[d@].public_key);
                return Some(d.clone());
            }
            i += 1;
        }
        assert forall|d: Seq<char>| !self@.bound(d, key@) by {
            if self@.bound(d, key@) {
                let j = self.identities.lemma_find(d);
                assert(self.identities.values()[j]@.public_key != key@);
            }
        }
        None
    }

    /// Whether a pending pairing shows `code`.
    fn on_screen(&self, code: &str) -> (r: bool)
        requires
            self.wf(),
        ensures
            r == self@.shows(code@),
    {
        let mut i: usize = 0;
        proof {
            self.pending.lemma_rows();
        }
        while i < self.pending.len()
            invariant
                self.wf(),
                i <= self.pending.keys().len(),
                self.pending.keys().len() == self.pending.values().len(),
                forall|j: int|
                    0 <= j < self.pending.keys().len() ==> self.pending@.contains_key(
                        #[trigger] self.pending.keys()[j],
                    ) && self.pending@[self.pending.keys()[j]] == self.pending.values()[j],
                forall|k: Seq<char>|
                    self.pending@.contains_key(k) <==> self.pending.keys().contains(k),
                forall|j: int| 0 <= j < i ==> (#[trigger] self.pending.values()[j])@.code != code@,
            decreases self.pending.keys().len() - i,
        {
            let p = self.pending.value_at(i);
            if str_eq(p.code.as_str(), code) {
                assert(self.pending@.contains_key(self.pending.keys()[i as int]));
                assert(self@.shown_at(self.pending.keys()[i as int], code@));
                return true;
            }
            i += 1;
        }
        assert forall|f: Seq<char>| !self@.shown_at(f, code@) by {
            if self@.shown_at(f, code@) {
                let j = self.pending.lemma_find(f);
                assert(self.pending.values()[j]@.code != code@);
            }
        }
        false
    }

    /// The first spare code that no pending node shows.
    pub fn spare_code(&self) -> (r: String)
        requires
            self.wf(),
        ensures
            fresh_in(self@, r@),
            exists|n: int|
                0 <= n <= MAX_PENDING_PAIRINGS && r@ == #[trigger] spare_code_at(n) && forall|m: int|
                    0 <= m < n ==> self@.shows(#[trigger] spare_code_at(m)),
    {
        proof {
            lemma_spare_code_left(self@);
        }
        let mut n: usize = 0;
        loop
            invariant
                self.wf(),
                n <= MAX_PENDING_PAIRINGS,
                forall|m: int| 0 <= m < n ==> self@.shows(#[trigger] spare_code_at(m)),
                exists|m: int|
                    0 <= m <= MAX_PENDING_PAIRINGS && !self@.shows(#[trigger] spare_code_at(m)),
            decreases MAX_PENDING_PAIRINGS - n,
        {
            let bytes: [u8; 6] = [0, 0, 0, 0, (n / 32) as u8, (n % 32) as u8];
            assert(bytes@ =~= spare_bytes(n as int));
            let code = code_from_bytes(bytes.as_slice());
            assert(code@ == spare_code_at(n as int));
            if !self.on_screen(code.as_str()) {
                assert(is_code(code@));
                return code;
            }
            n += 1;
        }
    }

    /// Draw a pairing code that no other pending node shows. After
    /// [`CODE_TRIES`] codes that are all on screen, a spare one is taken, so two
    /// pairings never collide.
    fn fresh_code(&self, now_ms: u64) -> (r: String)
        requires
            self.wf(),
        ensures
            fresh_in(self@, r@),
    {
        let mut i: usize = 0;
        while i < CODE_TRIES
            invariant
                self.wf(),
            decreases CODE_TRIES - i,
        {
            let code = random_code(now_ms);
            if !self.on_screen(code.as_str()) {
                return code;
            }
            i += 1;
        }
        self.spare_code()
    }

    /// Enrol a node whose key was read, with the values that a new binding or a
    /// new pairing would take.
    pub fn enroll_with(
        &mut self,
        key: [u8; 32],
        request: &EnrollRequest,
        now_ms: u64,
        drawn_device: String,
        drawn_code: String,
    ) -> (r: Result<EnrollOutcome, EnrollError>)
        requires
            old(self).wf(),
        ensures
            final(self).wf(),
            ({
                let (after, reply) = enroll_effect(
                    old(self)@,
                    key@,
                    *request,
                    (now_ms / 1000) as u64,
                    drawn_device@,
                    drawn_code@,
                );
                final(self)@ == after && reply_is(r, reply)
            }),
    {
        let fingerprint = key_fingerprint(&key);
        let now_s: u64 = now_ms / 1000;
        let ghost before = self@;
        proof {
            self.pending.lemma_len();
            assert(self@.pending.dom() =~= self.pending@.dom());
        }
        if let Some(device_id) = self.find_holder(&key) {
            return Ok(EnrollOutcome::Enrolled { device_id, heartbeat_secs: HEARTBEAT_SECS });
        }
        assert forall|d: Seq<char>| before.identities.contains_key(d) implies #[trigger] before.identities[d].public_key
            != key@ by {
            if before.identities[d].public_key == key@ {
                assert(before.bound(d, key@));
            }
        }
        let paired: Option<String> = match self.pending.get(fingerprint.as_str()) {
            Some(p) => match &p.paired_device_id {
                Some(d) => Some(d.clone()),
                None => None,
            },
            None => None,
        };
        if let Some(device_id) = paired {
            if let Some(p) = self.pending.remove(fingerprint.as_str()) {
                let identity = NodeIdentity { public_key: key, last_ts: 0, heads: p.heads };
                let ghost iv = identity@;
                self.identities.insert(device_id.clone(), identity);
                proof {
                    assert(self@.identities =~= before.identities.insert(device_id@, iv));
                    assert(self@.pending =~= before.pending.remove(fingerprint@));
                    assert(self@.tokens =~= before.tokens);
                    assert(self@.pending.dom() =~= before.pending.dom().remove(fingerprint@));
                }
            }
            return Ok(EnrollOutcome::Enrolled { device_id, heartbeat_secs: HEARTBEAT_SECS });
        }
        if let Some(bearer) = &request.token {
            let device_id = match self.redeem_token(bearer.as_str(), now_s, drawn_device) {
                Ok(d) => d,
                Err(e) => {
                    return Err(e);
                },
            };
            let identity = NodeIdentity {
                public_key: key,
                last_ts: 0,
                heads: clone_heads(&request.heads),
            };
            let ghost iv = identity@;
            self.identities.insert(device_id.clone(), identity);
            assert(self@.identities =~= before.identities.insert(device_id@, iv));
            return Ok(EnrollOutcome::Enrolled { device_id, heartbeat_secs: HEARTBEAT_SECS });
        }
        if let Some(p) = self.pending.get(fingerprint.as_str()) {
            return Ok(
                EnrollOutcome::Pairing { pairing_code: p.code.clone(), retry_secs: PAIRING_RETRY_SECS },
            );
        }
        if self.pending.len() >= MAX_PENDING_PAIRINGS {
            return Err(EnrollError::PairingTableFull);
        }
        let p = PendingPairing {
            code: drawn_code.clone(),
            public_key: key,
            model: request.model.clone(),
            node_name: request.node_name.clone(),
            heads: clone_heads(&request.heads),
            created_epoch_s: now_s,
            paired_device_id: None,
        };
        let ghost pv = p@;
        let ghost f = fingerprint@;
        self.pending.insert(fingerprint, p);
        proof {
            assert(self@.pending =~= before.pending.insert(f, pv));
            assert(self@.pending.dom() =~= before.pending.dom().insert(f));
            assert(self@.identities =~= before.identities);
            assert(self@.tokens =~= before.tokens);
        }
        Ok(EnrollOutcome::Pairing { pairing_code: drawn_code, retry_secs: PAIRING_RETRY_SECS })
    }

    /// Redeem a bearer token for `device_id`: a token is redeemed once.
    fn redeem_token(&mut self, bearer: &str, now_s: u64, device_id: String) -> (r: Result<
        String,
        EnrollError,
    >)
        requires
            old(self).wf(),
        ensures
            final(self).wf(),
            match redeemed(old(self)@.tokens, bearer@, now_s) {
                Some(id) => {
                    &&& r matches Ok(d)
                    &&& d@ == device_id@
                    &&& final(self)@ == (EnrollView {
                        tokens: old(self)@.tokens.insert(
                            id,
                            TokenView { used_by: Some(device_id@), ..old(self)@.tokens[id] },
                        ),
                        ..old(self)@
                    })
                },
                None => r matches Err(EnrollError::TokenRejected) && final(self)@ == old(self)@,
            },
    {
        let ghost before = self@;
        let (token_id, secret) = match split_once(bearer, '.') {
            Some(parts) => parts,
            None => {
                return Err(EnrollError::TokenRejected);
            },
        };
        let presented = sha256(secret.as_bytes());
        match self.tokens.get(token_id) {
            None => {
                return Err(EnrollError::TokenRejected);
            },
            Some(record) => {
                if !ct_eq(record.secret_hash.as_slice(), presented.as_slice()) {
                    return Err(EnrollError::TokenRejected);
                }
                if !record.is_redeemable(now_s) {
                    return Err(EnrollError::TokenRejected);
                }
            },
        }
        self.seq = self.seq.wrapping_add(1);
        if let Some(record) = self.tokens.remove(token_id) {
            let mut record = record;
            record.used_by = Some(device_id.clone());
            self.tokens.insert(token_id.to_owned(), record);
            assert(self@.tokens =~= before.tokens.insert(
                token_id@,
                TokenView { used_by: Some(device_id@), ..before.tokens[token_id@] },
            ));
            assert(self@.pending =~= before.pending);
            assert(self@.identities =~= before.identities);
        }
        Ok(device_id)
    }

    /// Enrol a node.
    ///
    /// A key that is already bound keeps its device, whatever token comes with
    /// it. Otherwise a completed pairing binds the key to the device that the
    /// operator chose; otherwise a token is redeemed, once; otherwise the node
    /// is given a pairing code, the same one at every poll.
    pub fn enroll(&mut self, request: &EnrollRequest, now_ms: u64) -> (r: Result<
        EnrollOutcome,
        EnrollError,
    >)
        requires
            old(self).wf(),
        ensures
            final(self).wf(),
            match submitted_key(request.public_key@) {
                KeyView::Key(key) => exists|device: Seq<char>, code: Seq<char>|
                    #[trigger] drawn_id(device, "node-"@) && #[trigger] fresh_in(old(self)@, code) && ({
                        let (after, reply) = enroll_effect(
                            old(self)@,
                            key,
                            *request,
                            (now_ms / 1000) as u64,
                            device,
                            code,
                        );
                        final(self)@ == after && reply_is(r, reply)
                    }),
                refused => final(self)@ == old(self)@ && (r matches Err(EnrollError::Invalid(t)) && t@
                    == key_refusal(refused)),
            },
    {
        let key = match parse_public_key(request.public_key.as_str()) {
            Ok(key) => key,
            Err(e) => {
                return Err(e);
            },
        };
        let hex = random_hex(8, now_ms);
        let device = cat2("node-", hex.as_str());
        assert(drawn_id(device@, "node-"@));
        let code = self.fresh_code(now_ms);
        self.enroll_with(key, request, now_ms, device, code)
    }
}

/// Whether two keys are the same.
fn same_bytes(a: &[u8; 32], b: &[u8; 32]) -> (r: bool)
    ensures
        r == (a@ == b@),
{
    let mut i: usize = 0;
    while i < 32
        invariant
            i <= 32,
            forall|j: int| 0 <= j < i ==> a@[j] == b@[j],
        decreases 32 - i,
    {
        if a[i] != b[i] {
            return false;
        }
        i += 1;
    }
    assert(a@ =~= b@);
    true
}

// ---- Pairing -----------------------------------------------------------------

/// The code that an operator means: what was typed, trimmed, in upper case.
pub open spec fn typed_code(code: Seq<char>) -> Seq<char> {
    crate::text::trim_of(code, CharClass::White).map_values(|c: char| crate::text::upper_of(c))
}

/// What completing a pairing does and answers. Where two nodes show one code,
/// either may be the one that is paired.
pub open spec fn pair_effect(
    v: EnrollView,
    after: EnrollView,
    code: Seq<char>,
    device: Seq<char>,
    display_name: Option<Seq<char>>,
    r: PairCompletion,
) -> bool {
    match r {
        PairCompletion::NotFound => after == v && forall|f: Seq<char>|
            !#[trigger] v.awaits(f, typed_code(code)),
        PairCompletion::Completed { device_id, node_name, public_key_b64, heads } => exists|
            f: Seq<char>,
        |
            {
                &&& #[trigger] v.awaits(f, typed_code(code))
                &&& after == (EnrollView {
                    pending: v.pending.insert(
                        f,
                        PendingView { paired_device_id: Some(device), ..v.pending[f] },
                    ),
                    ..v
                })
                &&& device_id@ == device
                &&& node_name@ == (match display_name {
                    Some(name) => name,
                    None => v.pending[f].node_name,
                })
                &&& public_key_b64@ == crate::crypto::base64_of(v.pending[f].public_key)
                &&& crate::crypto::base64_decoded_of(public_key_b64@) == Some(v.pending[f].public_key)
                &&& heads@ == v.pending[f].heads
            },
    }
}

impl EnrollView {
    /// Whether the node under `f` shows `code` and has not been paired.
    pub open spec fn awaits(self, f: Seq<char>, code: Seq<char>) -> bool {
        self.shown_at(f, code) && self.pending[f].paired_device_id is None
    }

    /// The pending pairings without the assignment to `device`.
    pub open spec fn unassigned(self, device: Seq<char>) -> Map<Seq<char>, PendingView> {
        self.pending.map_values(
            |p: PendingView|
                if p.paired_device_id == Some(device) {
                    PendingView { paired_device_id: None, ..p }
                } else {
                    p
                },
        )
    }
}

/// The fingerprints of a listing.
pub open spec fn listed_fingerprints(rows: Seq<PairingRequestSummary>) -> Seq<Seq<char>> {
    rows.map_values(|t: PairingRequestSummary| t.fingerprint@)
}

/// Whether a listing row says what the pairing says.
pub open spec fn pairing_row(row: PairingRequestSummary, p: PendingView) -> bool {
    &&& row.model@ == p.model
    &&& row.node_name@ == p.node_name
    &&& row.created_epoch_s == p.created_epoch_s
}

impl NodeEnrollState {
    /// Complete a pairing, with the device id that is assigned where the
    /// operator named none.
    pub fn complete_pairing_with(
        &mut self,
        code: &str,
        device_id: Option<&str>,
        display_name: Option<&str>,
        drawn_device: String,
    ) -> (r: PairCompletion)
        requires
            old(self).wf(),
        ensures
            final(self).wf(),
            pair_effect(
                old(self)@,
                final(self)@,
                code@,
                (match device_id {
                    Some(d) => d@,
                    None => drawn_device@,
                }),
                (match display_name {
                    Some(n) => Some(n@),
                    None => None,
                }),
                r,
            ),
    {
        let ghost before = self@;
        let wanted = ascii_uppercase(trim(code, CharClass::White));
        let fingerprint = match self.find_waiting(wanted.as_str()) {
            Some(f) => f,
            None => {
                return PairCompletion::NotFound;
            },
        };
        let assigned: String = match device_id {
            Some(id) => id.to_owned(),
            None => {
                self.seq = self.seq.wrapping_add(1);
                drawn_device
            },
        };
        let ghost f = fingerprint@;
        assert(before.awaits(f, typed_code(code@)));
        match self.pending.remove(fingerprint.as_str()) {
            None => PairCompletion::NotFound,
            Some(p) => {
                let mut p = p;
                p.paired_device_id = Some(assigned.clone());
                let node_name: String = match display_name {
                    Some(name) => name.to_owned(),
                    None => p.node_name.clone(),
                };
                let public_key_b64 = base64_encode(p.public_key.as_slice());
                let heads = clone_heads(&p.heads);
                self.pending.insert(fingerprint, p);
                proof {
                    assert(self@.pending =~= before.pending.insert(
                        f,
                        PendingView { paired_device_id: Some(assigned@), ..before.pending[f] },
                    ));
                    assert(self@.pending.dom() =~= before.pending.dom());
                    assert(self@.identities =~= before.identities);
                    assert(self@.tokens =~= before.tokens);
                }
                PairCompletion::Completed { device_id: assigned, node_name, public_key_b64, heads }
            },
        }
    }

    /// Complete a pairing: the pending node that shows `code` (in any case, with
    /// white space around it) is assigned `device_id`, or a drawn id where none
    /// is given. The node learns of it at its next poll.
    pub fn complete_pairing(
        &mut self,
        code: &str,
        device_id: Option<&str>,
        display_name: Option<&str>,
        now_ms: u64,
    ) -> (r: PairCompletion)
        requires
            old(self).wf(),
        ensures
            final(self).wf(),
            exists|drawn: Seq<char>|
                #[trigger] drawn_id(drawn, "node-"@) && pair_effect(
                    old(self)@,
                    final(self)@,
                    code@,
                    (match device_id {
                        Some(d) => d@,
                        None => drawn,
                    }),
                    (match display_name {
                        Some(n) => Some(n@),
                        None => None,
                    }),
                    r,
                ),
    {
        let hex = random_hex(8, now_ms);
        let drawn = cat2("node-", hex.as_str());
        assert(drawn_id(drawn@, "node-"@));
        self.complete_pairing_with(code, device_id, display_name, drawn)
    }

    /// The fingerprint of a node that shows `code` and has not been paired.
    fn find_waiting(&self, code: &str) -> (r: Option<String>)
        requires
            self.wf(),
        ensures
            match r {
                Some(f) => self@.awaits(f@, code@),
                None => forall|f: Seq<char>| !#[trigger] self@.awaits(f, code@),
            },
    {
        let mut i: usize = 0;
        proof {
            self.pending.lemma_rows();
        }
        while i < self.pending.len()
            invariant
                self.wf(),
                i <= self.pending.keys().len(),
                self.pending.keys().len() == self.pending.values().len(),
                forall|j: int|
                    0 <= j < self.pending.keys().len() ==> self.pending@.contains_key(
                        #[trigger] self.pending.keys()[j],
                    ) && self.pending@[self.pending.keys()[j]] == self.pending.values()[j],
                forall|j: int|
                    0 <= j < i ==> (#[trigger] self.pending.values()[j])@.code != code@
                        || self.pending.values()[j]@.paired_device_id is Some,
            decreases self.pending.keys().len() - i,
        {
            let p = self.pending.value_at(i);
            if p.paired_device_id.is_none() && str_eq(p.code.as_str(), code) {
                assert(self.pending@.contains_key(self.pending.keys()[i as int]));
                assert(self@.shown_at(self.pending.keys()[i as int], code@));
                return Some(self.pending.key_at(i).clone());
            }
            i += 1;
        }
        assert forall|f: Seq<char>| !#[trigger] self@.awaits(f, code@) by {
            if self@.awaits(f, code@) {
                let j = self.pending.lemma_find(f);
                assert(self.pending.values()[j]@.code == code@);
            }
        }
        None
    }

    /// Undo an assignment: the code is good again for every node that was
    /// assigned `device_id`.
    pub fn unassign_pairing(&mut self, device_id: &str)
        requires
            old(self).wf(),
        ensures
            final(self).wf(),
            final(self)@ == (EnrollView {
                pending: old(self)@.unassigned(device_id@),
                ..old(self)@
            }),
    {
        let ghost before = self@;
        let mut rest: Table<PendingPairing> = Table::new();
        let mut out: Table<PendingPairing> = Table::new();
        std::mem::swap(&mut rest, &mut self.pending);
        let ghost all = rest@;
        let ghost wanted = before.unassigned(device_id@);
        while rest.len() > 0
            invariant
                rest.wf(),
                out.wf(),
                wanted == before.unassigned(device_id@),
                before.pending == all.map_values(|p: PendingPairing| p@),
                forall|k: Seq<char>| #[trigger]
                    all.contains_key(k) <==> rest@.contains_key(k) || out@.contains_key(k),
                forall|k: Seq<char>| !(#[trigger] rest@.contains_key(k) && out@.contains_key(k)),
                forall|k: Seq<char>| #[trigger] rest@.contains_key(k) ==> rest@[k] == all[k],
                forall|k: Seq<char>| #[trigger] out@.contains_key(k) ==> out@[k]@ == wanted[k],
            decreases rest.keys().len(),
        {
            if let Some(row) = rest.pop() {
                let (k, p) = row;
                assert(all.contains_key(k@));
                let mut p = p;
                let ours = match &p.paired_device_id {
                    Some(d) => str_eq(d.as_str(), device_id),
                    None => false,
                };
                if ours {
                    p.paired_device_id = None;
                }
                assert(p@ == wanted[k@]);
                out.insert(k, p);
            }
        }
        assert(rest@ =~= Map::<Seq<char>, PendingPairing>::empty()) by {
            rest.lemma_rows();
        }
        self.pending = out;
        assert(self@.pending =~= wanted);
        assert(self@.pending.dom() =~= before.pending.dom());
        assert(self@.identities =~= before.identities);
        assert(self@.tokens =~= before.tokens);
    }

    /// Whether one of the first `i` pending rows is `f`'s and has not been paired.
    spec fn waits_before(self, i: int, f: Seq<char>) -> bool {
        exists|j: int|
            0 <= j < i && #[trigger] self.pending.keys()[j] == f
                && self.pending.values()[j]@.paired_device_id is None
    }

    /// The pending requests, in fingerprint order: neither codes nor keys.
    pub fn list_pairing_requests(&self) -> (r: Vec<PairingRequestSummary>)
        requires
            self.wf(),
        ensures
            crate::table::strictly_sorted(listed_fingerprints(r@)),
            forall|f: Seq<char>|
                listed_fingerprints(r@).contains(f) <==> self@.pending.contains_key(f)
                    && self@.pending[f].paired_device_id is None,
            forall|i: int|
                0 <= i < r@.len() ==> pairing_row(
                    #[trigger] r@[i],
                    self@.pending[r@[i].fingerprint@],
                ),
    {
        let mut out: Vec<PairingRequestSummary> = Vec::new();
        let mut i: usize = 0;
        proof {
            self.pending.lemma_rows();
        }
        while i < self.pending.len()
            invariant
                self.wf(),
                i <= self.pending.keys().len(),
                self.pending.keys().len() == self.pending.values().len(),
                crate::table::strictly_sorted(self.pending.keys()),
                forall|j: int|
                    0 <= j < self.pending.keys().len() ==> self.pending@.contains_key(
                        #[trigger] self.pending.keys()[j],
                    ) && self.pending@[self.pending.keys()[j]] == self.pending.values()[j],
                crate::table::strictly_sorted(listed_fingerprints(out@)),
                forall|j: int|
                    0 <= j < out@.len() ==> pairing_row(
                        #[trigger] out@[j],
                        self@.pending[out@[j].fingerprint@],
                    ),
                forall|m: int|
                    0 <= m < listed_fingerprints(out@).len() ==> self.waits_before(
                        i as int,
                        #[trigger] listed_fingerprints(out@)[m],
                    ),
                forall|j: int|
                    0 <= j < i && (#[trigger] self.pending.values()[j])@.paired_device_id is None
                        ==> listed_fingerprints(out@).contains(self.pending.keys()[j]),
            decreases self.pending.keys().len() - i,
        {
            let p = self.pending.value_at(i);
            if p.paired_device_id.is_none() {
                let row = PairingRequestSummary {
                    fingerprint: self.pending.key_at(i).clone(),
                    model: p.model.clone(),
                    node_name: p.node_name.clone(),
                    created_epoch_s: p.created_epoch_s,
                };
                assert(self.pending@.contains_key(self.pending.keys()[i as int]));
                assert(pairing_row(row, self@.pending[row.fingerprint@]));
                let ghost rows = out@;
                out.push(row);
                proof {
                    let before = listed_fingerprints(rows);
                    let after = listed_fingerprints(out@);
                    assert(after =~= before.push(row.fingerprint@));
                    assert(crate::table::strictly_sorted(after)) by {
                        assert forall|a: int, b: int| 0 <= a < b < after.len() implies crate::text::lex_lt(
                            #[trigger] after[a],
                            #[trigger] after[b],
                        ) by {
                            assert(after[a] == before[a]);
                            if b < before.len() {
                                assert(after[b] == before[b]);
                            }
                        }
                    }
                    assert forall|j: int|
                        0 <= j < i + 1 && (#[trigger] self.pending.values()[j])@.paired_device_id is None
                        implies after.contains(self.pending.keys()[j]) by {
                        if j < i {
                            let m = choose|m: int| 0 <= m < before.len() && before[m] == self.pending.keys()[j];
                            assert(after[m] == self.pending.keys()[j]);
                        } else {
                            assert(after[before.len() as int] == self.pending.keys()[j]);
                        }
                    }
                    assert forall|m: int| 0 <= m < after.len() implies self.waits_before(
                        i + 1,
                        #[trigger] after[m],
                    ) by {
                        if m < before.len() {
                            assert(after[m] == before[m]);
                            assert(self.waits_before(i as int, before[m]));
                        } else {
                            assert(self.pending.keys()[i as int] == after[m]);
                        }
                    }
                }
            } else {
                proof {
                    let ids = listed_fingerprints(out@);
                    assert forall|m: int| 0 <= m < ids.len() implies self.waits_before(
                        i + 1,
                        #[trigger] ids[m],
                    ) by {
                        assert(self.waits_before(i as int, ids[m]));
                    }
                }
            }
            i += 1;
        }
        proof {
            let ids = listed_fingerprints(out@);
            assert forall|f: Seq<char>|
                ids.contains(f) <==> self@.pending.contains_key(f)
                    && self@.pending[f].paired_device_id is None by {
                if ids.contains(f) {
                    let m = choose|m: int| 0 <= m < ids.len() && ids[m] == f;
                    assert(self.waits_before(i as int, ids[m]));
                    let j = choose|j: int|
                        0 <= j < i && #[trigger] self.pending.keys()[j] == f
                            && self.pending.values()[j]@.paired_device_id is None;
                    assert(self.pending@.contains_key(self.pending.keys()[j]));
                }
                if self@.pending.contains_key(f) && self@.pending[f].paired_device_id is None {
                    let j = self.pending.lemma_find(f);
                    assert(self.pending.values()[j]@.paired_device_id is None);
                }
            }
        }
        out
    }
}

// ---- Heartbeats --------------------------------------------------------------

/// Whether `ts` is within the freshness window around `now_s`.
pub open spec fn is_fresh(now_s: u64, ts: u64) -> bool {
    -HEARTBEAT_FRESHNESS_SECS <= now_s - ts <= HEARTBEAT_FRESHNESS_SECS
}

/// Whether a heartbeat is accepted: its timestamp is fresh, its device is
/// bound, its timestamp is above the last one accepted, and its signature is
/// the bound key's over the canonical message.
pub open spec fn heartbeat_ok(
    v: EnrollView,
    device_id: Seq<char>,
    now_s: u64,
    ts: u64,
    signature: Option<Seq<u8>>,
    path: Seq<char>,
    body: Seq<u8>,
) -> bool {
    &&& is_fresh(now_s, ts)
    &&& signature is Some
    &&& v.identities.contains_key(device_id)
    &&& ts > v.identities[device_id].last_ts
    &&& crate::crypto::ed25519_signed_of(
        v.identities[device_id].public_key,
        bytes_of(canonical_of("POST"@, path, device_id, ts, body)),
        signature->0,
    )
}

/// The state after an accepted heartbeat.
pub open spec fn after_heartbeat(
    v: EnrollView,
    device_id: Seq<char>,
    ts: u64,
    heads: Seq<DisplayHead>,
) -> EnrollView {
    EnrollView {
        identities: v.identities.insert(
            device_id,
            IdentityView { last_ts: ts, heads, ..v.identities[device_id] },
        ),
        ..v
    }
}

impl NodeEnrollState {
    /// Verify a heartbeat whose signature was read.
    pub fn verify_heartbeat_with(
        &mut self,
        device_id: &str,
        ts: u64,
        signature: Option<[u8; 64]>,
        path: &str,
        body: &[u8],
        heads: Vec<DisplayHead>,
        now_ms: u64,
    ) -> (r: Result<VerifiedHeartbeat, EnrollError>)
        requires
            old(self).wf(),
        ensures
            final(self).wf(),
            ({
                let sig = match signature {
                    Some(s) => Some(s@),
                    None => None,
                };
                if heartbeat_ok(
                    old(self)@,
                    device_id@,
                    (now_ms / 1000) as u64,
                    ts,
                    sig,
                    path@,
                    body@,
                ) {
                    &&& final(self)@ == after_heartbeat(old(self)@, device_id@, ts, heads@)
                    &&& r matches Ok(h)
                    &&& h.device_id@ == device_id@
                    &&& h.heads@ == heads@
                    &&& h.heartbeat_secs == 10
                } else {
                    &&& final(self)@ == old(self)@
                    &&& r matches Err(EnrollError::Unauthorized)
                }
            }),
    {
        let ghost before = self@;
        let now: u64 = now_ms / 1000;
        let delta: u64 = if now >= ts {
            now - ts
        } else {
            ts - now
        };
        if delta > HEARTBEAT_FRESHNESS_SECS {
            return Err(EnrollError::Unauthorized);
        }
        let signature = match signature {
            Some(s) => s,
            None => {
                return Err(EnrollError::Unauthorized);
            },
        };
        let message = canonical_message("POST", path, device_id, ts, body);
        match self.identities.get(device_id) {
            None => {
                return Err(EnrollError::Unauthorized);
            },
            Some(identity) => {
                if ts <= identity.last_ts {
                    return Err(EnrollError::Unauthorized);
                }
                if !ed25519_signed(&identity.public_key, message.as_str().as_bytes(), &signature) {
                    return Err(EnrollError::Unauthorized);
                }
            },
        }
        let shown = clone_heads(&heads);
        if let Some(identity) = self.identities.remove(device_id) {
            let mut identity = identity;
            identity.last_ts = ts;
            identity.heads = heads;
            self.identities.insert(device_id.to_owned(), identity);
            proof {
                let next = after_heartbeat(before, device_id@, ts, heads@);
                assert(self@.identities =~= next.identities);
                assert(self@.pending =~= before.pending);
                assert(self@.tokens =~= before.tokens);
                assert forall|a: Seq<char>, b: Seq<char>|
                    #![trigger self@.identities[a], self@.identities[b]]
                    self@.identities.contains_key(a) && self@.identities.contains_key(b)
                        && self@.identities[a].public_key == self@.identities[b].public_key implies a
                    == b by {
                    assert(before.identities[a].public_key == self@.identities[a].public_key);
                    assert(before.identities[b].public_key == self@.identities[b].public_key);
                }
            }
        }
        Ok(
            VerifiedHeartbeat {
                device_id: device_id.to_owned(),
                heads: shown,
                heartbeat_secs: HEARTBEAT_SECS,
            },
        )
    }

    /// Verify a signed heartbeat and, where it holds, advance the device's
    /// replay guard and refresh its heads.
    pub fn verify_heartbeat(
        &mut self,
        device_id: &str,
        ts: u64,
        signature_b64: &str,
        path: &str,
        body: &[u8],
        heads: Vec<DisplayHead>,
        now_ms: u64,
    ) -> (r: Result<VerifiedHeartbeat, EnrollError>)
        requires
            old(self).wf(),
        ensures
            final(self).wf(),
            if heartbeat_ok(
                old(self)@,
                device_id@,
                (now_ms / 1000) as u64,
                ts,
                submitted_signature(signature_b64@),
                path@,
                body@,
            ) {
                &&& final(self)@ == after_heartbeat(old(self)@, device_id@, ts, heads@)
                &&& r matches Ok(h)
                &&& h.device_id@ == device_id@
                &&& h.heads@ == heads@
                &&& h.heartbeat_secs == 10
            } else {
                &&& final(self)@ == old(self)@
                &&& r matches Err(EnrollError::Unauthorized)
            },
    {
        let signature = parse_signature(signature_b64);
        self.verify_heartbeat_with(device_id, ts, signature, path, body, heads, now_ms)
    }

    /// The heads that `device_id` last reported.
    pub fn display_heads(&self, device_id: &str) -> (r: Option<Vec<DisplayHead>>)
        requires
            self.wf(),
        ensures
            match r {
                Some(heads) => self@.identities.contains_key(device_id@) && heads@
                    == self@.identities[device_id@].heads,
                None => !self@.identities.contains_key(device_id@),
            },
    {
        match self.identities.get(device_id) {
            Some(n) => Some(clone_heads(&n.heads)),
            None => None,
        }
    }

    /// Whether a node is bound to `device_id`.
    pub fn is_enrolled(&self, device_id: &str) -> (r: bool)
        requires
            self.wf(),
        ensures
            r == self@.identities.contains_key(device_id@),
    {
        self.identities.contains(device_id)
    }

    /// Forget a device: its key no longer authenticates, and pairings that were
    /// assigned to it are dropped.
    pub fn forget(&mut self, device_id: &str)
        requires
            old(self).wf(),
        ensures
            final(self).wf(),
            final(self)@.tokens == old(self)@.tokens,
            final(self)@.identities == old(self)@.identities.remove(device_id@),
            forall|f: Seq<char>| #[trigger]
                final(self)@.pending.contains_key(f) <==> old(self)@.pending.contains_key(f)
                    && old(self)@.pending[f].paired_device_id != Some(device_id@),
            forall|f: Seq<char>| #[trigger]
                final(self)@.pending.contains_key(f) ==> final(self)@.pending[f]
                    == old(self)@.pending[f],
    {
        let ghost before = self@;
        self.identities.remove(device_id);
        let mut rest: Table<PendingPairing> = Table::new();
        let mut out: Table<PendingPairing> = Table::new();
        std::mem::swap(&mut rest, &mut self.pending);
        let ghost all = rest@;
        while rest.len() > 0
            invariant
                rest.wf(),
                out.wf(),
                before.pending == all.map_values(|p: PendingPairing| p@),
                forall|k: Seq<char>| #[trigger]
                    all.contains_key(k) && all[k]@.paired_device_id != Some(device_id@) ==> rest@.contains_key(
                        k,
                    ) || out@.contains_key(k),
                forall|k: Seq<char>| #[trigger] rest@.contains_key(k) ==> all.contains_key(k) && rest@[k]
                    == all[k],
                forall|k: Seq<char>| #[trigger] out@.contains_key(k) ==> all.contains_key(k) && out@[k]
                    == all[k] && all[k]@.paired_device_id != Some(device_id@),
            decreases rest.keys().len(),
        {
            if let Some(row) = rest.pop() {
                let (k, p) = row;
                let ours = match &p.paired_device_id {
                    Some(d) => str_eq(d.as_str(), device_id),
                    None => false,
                };
                if !ours {
                    out.insert(k, p);
                }
            }
        }
        proof {
            rest.lemma_rows();
        }
        self.pending = out;
        proof {
            assert(self@.identities =~= before.identities.remove(device_id@));
            assert(self@.tokens =~= before.tokens);
            assert(self@.pending.dom().subset_of(before.pending.dom()));
            vstd::set_lib::lemma_len_subset(self@.pending.dom(), before.pending.dom());
            assert forall|a: Seq<char>, b: Seq<char>|
                #![trigger self@.identities[a], self@.identities[b]]
                self@.identities.contains_key(a) && self@.identities.contains_key(b)
                    && self@.identities[a].public_key == self@.identities[b].public_key implies a
                == b by {
                assert(before.identities[a] == self@.identities[a]);
                assert(before.identities[b] == self@.identities[b]);
            }
            assert forall|f: Seq<char>| #[trigger] self@.pending.contains_key(f) implies self@.pending[f]
                == before.pending[f] by {}
        }
    }
}

// ---- Laws --------------------------------------------------------------------

/// A key that was enrolled keeps its device: whatever a later request brings,
/// the answer names the same device and nothing changes.
pub proof fn law_enrolled_key_keeps_its_device(
    v: EnrollView,
    key: Seq<u8>,
    first: EnrollRequest,
    now1: u64,
    device1: Seq<char>,
    code1: Seq<char>,
    later: EnrollRequest,
    now2: u64,
    device2: Seq<char>,
    code2: Seq<char>,
)
    requires
        v.wf(),
    ensures
        ({
            let (after, reply) = enroll_effect(v, key, first, now1, device1, code1);
            reply matches EnrollReply::Enrolled(d) ==> after.holder(key) == Some(d)
                && enroll_effect(after, key, later, now2, device2, code2) == (
                after,
                EnrollReply::Enrolled(d),
            )
        }),
{
    let (after, reply) = enroll_effect(v, key, first, now1, device1, code1);
    if let EnrollReply::Enrolled(d) = reply {
        if v.holder(key) is None {
            assert(after.bound(d, key));
            let h = after.holder(key)->0;
            assert(after.bound(h, key));
            assert(h == d) by {
                if h != d {
                    assert(v.bound(h, key));
                }
            }
        }
    }
}

/// A token is redeemed once: after a request that used it up, no bearer redeems
/// it, at any time.
pub proof fn law_token_is_redeemed_once(
    v: EnrollView,
    key: Seq<u8>,
    request: EnrollRequest,
    now1: u64,
    device: Seq<char>,
    code: Seq<char>,
    bearer: Seq<char>,
    now2: u64,
)
    requires
        request.token is Some,
        v.holder(key) is None,
        !(v.pending.contains_key(fingerprint_of(key))
            && v.pending[fingerprint_of(key)].paired_device_id is Some),
        redeemed(v.tokens, request.token->0@, now1) is Some,
    ensures
        redeemed(enroll_effect(v, key, request, now1, device, code).0.tokens, bearer, now2)
            != redeemed(v.tokens, request.token->0@, now1),
{
}

/// A spent token is spent for good. Once a key was enrolled with it, another key
/// that brings it is refused and stays as unknown as it was, the token is still
/// listed as used by the first key's device, and the first key, which brings it
/// again or brings nothing, is still enrolled as that device.
pub proof fn law_spent_token_is_refused(
    v: EnrollView,
    key1: Seq<u8>,
    first: EnrollRequest,
    now1: u64,
    device1: Seq<char>,
    code1: Seq<char>,
    key2: Seq<u8>,
    second: EnrollRequest,
    now2: u64,
    device2: Seq<char>,
    code2: Seq<char>,
    again: EnrollRequest,
    now3: u64,
    device3: Seq<char>,
    code3: Seq<char>,
    row: TokenSummary,
)
    requires
        v.wf(),
        key1 != key2,
        v.holder(key1) is None,
        v.holder(key2) is None,
        !v.pending.contains_key(fingerprint_of(key1)),
        !v.pending.contains_key(fingerprint_of(key2)),
        first.token is Some,
        redeemed(v.tokens, first.token->0@, now1) is Some,
        second.token is Some,
        second.token->0@ == first.token->0@,
    ensures
        ({
            let id = redeemed(v.tokens, first.token->0@, now1)->0;
            let (used, reply) = enroll_effect(v, key1, first, now1, device1, code1);
            &&& reply == EnrollReply::Enrolled(device1)
            &&& enroll_effect(used, key2, second, now2, device2, code2) == (
                used,
                EnrollReply::TokenRejected,
            )
            &&& used.holder(key2) is None
            &&& !used.pending.contains_key(fingerprint_of(key2))
            &&& used.tokens.contains_key(id)
            &&& summary_of(row, used.tokens[id], now3) ==> row.state == TokenState::Used
                && crate::text::text_opt(row.used_by) == Some(device1)
            &&& enroll_effect(used, key1, again, now3, device3, code3) == (
                used,
                EnrollReply::Enrolled(device1),
            )
        }),
{
    let used = enroll_effect(v, key1, first, now1, device1, code1).0;
    law_enrolled_key_keeps_its_device(
        v,
        key1,
        first,
        now1,
        device1,
        code1,
        again,
        now3,
        device3,
        code3,
    );
    assert forall|d: Seq<char>| !used.bound(d, key2) by {
        assert(!v.bound(d, key2));
    }
}

/// A revoked token is never redeemed.
pub proof fn law_revoked_token_is_refused(v: EnrollView, id: Seq<char>, bearer: Seq<char>, now_s: u64)
    requires
        v.tokens.contains_key(id),
        v.tokens[id].revoked,
    ensures
        redeemed(v.tokens, bearer, now_s) != Some(id),
{
}

/// A token is not redeemed at or past its expiry.
pub proof fn law_expired_token_is_refused(v: EnrollView, id: Seq<char>, bearer: Seq<char>, now_s: u64)
    requires
        v.tokens.contains_key(id),
        now_s >= v.tokens[id].expires_epoch_s,
    ensures
        redeemed(v.tokens, bearer, now_s) != Some(id),
{
}

/// The bearer text that a mint hands out redeems the token until it expires.
pub proof fn law_minted_token_redeems(
    before: EnrollView,
    after: EnrollView,
    ttl_secs: Option<u64>,
    now_s: u64,
    token_id: Seq<char>,
    secret: Seq<char>,
    r: Result<MintedToken, EnrollError>,
    later: u64,
)
    requires
        mint_effect(before, after, ttl_secs, now_s, token_id, secret, r),
        r is Ok,
        crate::text::first_index(token_id, '.') is None,
        later < r->Ok_0.expires_epoch_s,
    ensures
        redeemed(after.tokens, r->Ok_0.token@, later) == Some(token_id),
{
    let bearer = token_id + seq!['.'] + secret;
    crate::text::lemma_first_index(token_id, '.');
    crate::text::lemma_first_index(bearer, '.');
    let n = token_id.len() as int;
    assert(bearer[n] == '.');
    let i = crate::text::first_index(bearer, '.')->0;
    assert(i == n) by {
        if i < n {
            assert(bearer[i] == token_id[i]);
        }
    }
    assert(bearer.take(n) =~= token_id);
    assert(bearer.skip(n + 1) =~= secret);
}

/// No two pending nodes show the same code.
pub open spec fn codes_distinct(v: EnrollView) -> bool {
    forall|f: Seq<char>, g: Seq<char>|
        #![trigger v.pending[f], v.pending[g]]
        v.pending.contains_key(f) && v.pending.contains_key(g) && v.pending[f].code
            == v.pending[g].code ==> f == g
}

/// Two pairings never collide: a request whose code was drawn fresh leaves no
/// two pending nodes with the same code, where there were none before.
pub proof fn law_pairing_codes_never_collide(
    v: EnrollView,
    key: Seq<u8>,
    request: EnrollRequest,
    now_s: u64,
    device: Seq<char>,
    code: Seq<char>,
)
    requires
        codes_distinct(v),
        fresh_in(v, code),
    ensures
        codes_distinct(enroll_effect(v, key, request, now_s, device, code).0),
{
    let after = enroll_effect(v, key, request, now_s, device, code).0;
    assert forall|f: Seq<char>, g: Seq<char>|
        #![trigger after.pending[f], after.pending[g]]
        after.pending.contains_key(f) && after.pending.contains_key(g) && after.pending[f].code
            == after.pending[g].code implies f == g by {
        assert(!v.shown_at(f, code));
        assert(!v.shown_at(g, code));
    }
}

/// Completing a pairing and undoing an assignment make no two pending nodes show
/// the same code.
pub proof fn law_completion_keeps_codes_distinct(
    v: EnrollView,
    after: EnrollView,
    code: Seq<char>,
    device: Seq<char>,
    display_name: Option<Seq<char>>,
    r: PairCompletion,
)
    requires
        codes_distinct(v),
    ensures
        pair_effect(v, after, code, device, display_name, r) ==> codes_distinct(after),
        codes_distinct(EnrollView { pending: v.unassigned(device), ..v }),
{
    let undone = EnrollView { pending: v.unassigned(device), ..v };
    assert forall|f: Seq<char>, g: Seq<char>|
        #![trigger undone.pending[f], undone.pending[g]]
        undone.pending.contains_key(f) && undone.pending.contains_key(g) && undone.pending[f].code
            == undone.pending[g].code implies f == g by {
        assert(undone.pending[f].code == v.pending[f].code);
        assert(undone.pending[g].code == v.pending[g].code);
    }
    if pair_effect(v, after, code, device, display_name, r) {
        assert forall|f: Seq<char>, g: Seq<char>|
            #![trigger after.pending[f], after.pending[g]]
            after.pending.contains_key(f) && after.pending.contains_key(g)
                && after.pending[f].code == after.pending[g].code implies f == g by {
            assert(v.pending.contains_key(f) && after.pending[f].code == v.pending[f].code);
            assert(v.pending.contains_key(g) && after.pending[g].code == v.pending[g].code);
        }
    }
}

/// A node that polls without a token is shown the same code every time.
pub proof fn law_pairing_code_is_stable(
    v: EnrollView,
    key: Seq<u8>,
    first: EnrollRequest,
    now1: u64,
    device1: Seq<char>,
    code1: Seq<char>,
    later: EnrollRequest,
    now2: u64,
    device2: Seq<char>,
    code2: Seq<char>,
)
    requires
        later.token is None,
    ensures
        ({
            let (after, reply) = enroll_effect(v, key, first, now1, device1, code1);
            reply matches EnrollReply::Pairing(c) ==> enroll_effect(
                after,
                key,
                later,
                now2,
                device2,
                code2,
            ) == (after, EnrollReply::Pairing(c))
        }),
{
    let (after, reply) = enroll_effect(v, key, first, now1, device1, code1);
    if reply is Pairing {
        assert(after.identities == v.identities);
        assert(after.holder(key) is None) by {
            assert forall|d: Seq<char>| !after.bound(d, key) by {
                if after.bound(d, key) {
                    assert(v.bound(d, key));
                }
            }
        }
    }
}

/// A completed pairing binds: the node's next poll is answered with the device
/// that the operator chose.
pub proof fn law_completed_pairing_enrolls(
    v: EnrollView,
    after: EnrollView,
    code: Seq<char>,
    device: Seq<char>,
    name: Option<Seq<char>>,
    r: PairCompletion,
    request: EnrollRequest,
    now_s: u64,
    device2: Seq<char>,
    code2: Seq<char>,
)
    requires
        v.wf(),
        pair_effect(v, after, code, device, name, r),
        r is Completed,
    ensures
        exists|f: Seq<char>|
            #[trigger] v.awaits(f, typed_code(code)) && (v.holder(v.pending[f].public_key) is None
                ==> enroll_effect(after, v.pending[f].public_key, request, now_s, device2, code2).1
                == EnrollReply::Enrolled(device)),
{
    let f = choose|f: Seq<char>|
        {
            &&& #[trigger] v.awaits(f, typed_code(code))
            &&& after == (EnrollView {
                pending: v.pending.insert(
                    f,
                    PendingView { paired_device_id: Some(device), ..v.pending[f] },
                ),
                ..v
            })
        };
    let key = v.pending[f].public_key;
    assert(f == fingerprint_of(key));
    if v.holder(key) is None {
        assert(after.holder(key) is None) by {
            assert forall|d: Seq<char>| !after.bound(d, key) by {
                if after.bound(d, key) {
                    assert(v.bound(d, key));
                }
            }
        }
    }
}

/// A heartbeat is accepted once: after a timestamp was accepted, it and every
/// earlier one are refused, whatever the signature.
pub proof fn law_heartbeat_is_not_replayed(
    v: EnrollView,
    device_id: Seq<char>,
    ts: u64,
    heads: Seq<DisplayHead>,
    now_s: u64,
    ts2: u64,
    signature: Option<Seq<u8>>,
    path: Seq<char>,
    body: Seq<u8>,
)
    requires
        v.identities.contains_key(device_id),
        ts2 <= ts,
    ensures
        !heartbeat_ok(
            after_heartbeat(v, device_id, ts, heads),
            device_id,
            now_s,
            ts2,
            signature,
            path,
            body,
        ),
{
}

/// A device without an identity is sent away, whatever the signature.
pub proof fn law_unbound_device_is_refused(
    v: EnrollView,
    device_id: Seq<char>,
    now_s: u64,
    ts: u64,
    signature: Option<Seq<u8>>,
    path: Seq<char>,
    body: Seq<u8>,
)
    requires
        !v.identities.contains_key(device_id),
    ensures
        !heartbeat_ok(v, device_id, now_s, ts, signature, path, body),
{
}

/// Whether a text stands on one line.
pub open spec fn one_line(text: Seq<char>) -> bool {
    forall|i: int| 0 <= i < text.len() ==> #[trigger] text[i] != '\n'
}

/// A line ends at the first line break.
proof fn lemma_first_line(a: Seq<char>, x: Seq<char>, b: Seq<char>, y: Seq<char>)
    requires
        one_line(a),
        one_line(b),
        a + seq!['\n'] + x == b + seq!['\n'] + y,
    ensures
        a == b,
        x == y,
{
    let s = a + seq!['\n'] + x;
    let t = b + seq!['\n'] + y;
    assert(s[a.len() as int] == '\n');
    assert(t[b.len() as int] == '\n');
    if a.len() < b.len() {
        assert(t[a.len() as int] == b[a.len() as int]);
    }
    if b.len() < a.len() {
        assert(s[b.len() as int] == a[b.len() as int]);
    }
    assert(a =~= s.take(a.len() as int));
    assert(b =~= t.take(b.len() as int));
    assert(x =~= s.skip((a.len() + 1) as int));
    assert(y =~= t.skip((b.len() + 1) as int));
}

/// Different bytes have different hex texts.
proof fn lemma_hex_tells_apart(a: Seq<u8>, b: Seq<u8>)
    requires
        hex_of(a) == hex_of(b),
    ensures
        a == b,
    decreases a.len(),
{
    lemma_hex(a);
    lemma_hex(b);
    if a.len() > 0 {
        let (h, k) = (hex_of(a), hex_of(b));
        let n = h.len() as int;
        assert(hex_of(a.drop_last()) =~= h.take(n - 2));
        assert(hex_of(b.drop_last()) =~= k.take(n - 2));
        lemma_hex_tells_apart(a.drop_last(), b.drop_last());
        assert(h[n - 1] == hex_digit(a.last() as int % 16));
        assert(k[n - 1] == hex_digit(b.last() as int % 16));
        assert(h[n - 2] == hex_digit(a.last() as int / 16));
        assert(k[n - 2] == hex_digit(b.last() as int / 16));
        assert(a.last() == b.last());
        assert(a =~= a.drop_last().push(a.last()));
        assert(b =~= b.drop_last().push(b.last()));
    } else {
        assert(a =~= b);
    }
}

/// A signed message says one thing: two requests with the same message have the
/// same method, path, device, timestamp and body hash. Where a part spans lines
/// the message could be read in two ways.
pub proof fn law_message_binds_its_parts(
    method: Seq<char>,
    path: Seq<char>,
    device_id: Seq<char>,
    ts: u64,
    body: Seq<u8>,
    method2: Seq<char>,
    path2: Seq<char>,
    device_id2: Seq<char>,
    ts2: u64,
    body2: Seq<u8>,
)
    requires
        one_line(method) && one_line(path) && one_line(device_id),
        one_line(method2) && one_line(path2) && one_line(device_id2),
        canonical_of(method, path, device_id, ts, body) == canonical_of(
            method2,
            path2,
            device_id2,
            ts2,
            body2,
        ),
    ensures
        method == method2,
        path == path2,
        device_id == device_id2,
        ts == ts2,
        crate::crypto::sha256_of(body) == crate::crypto::sha256_of(body2),
{
    let (d, d2) = (crate::text::decimal(ts as nat), crate::text::decimal(ts2 as nat));
    let h = hex_of(crate::crypto::sha256_of(body));
    let h2 = hex_of(crate::crypto::sha256_of(body2));
    let nl = seq!['\n'];
    crate::text::lemma_decimal(ts as nat);
    crate::text::lemma_decimal(ts2 as nat);
    assert(one_line(d)) by {
        assert forall|i: int| 0 <= i < d.len() implies #[trigger] d[i] != '\n' by {
            assert(crate::text::is_digit(d[i]));
        }
    }
    assert(one_line(d2)) by {
        assert forall|i: int| 0 <= i < d2.len() implies #[trigger] d2[i] != '\n' by {
            assert(crate::text::is_digit(d2[i]));
        }
    }
    let (stamped, stamped2) = (d + nl + h, d2 + nl + h2);
    let (named, named2) = (device_id + nl + stamped, device_id2 + nl + stamped2);
    let (placed, placed2) = (path + nl + named, path2 + nl + named2);
    assert(canonical_of(method, path, device_id, ts, body) =~= method + nl + placed);
    assert(canonical_of(method2, path2, device_id2, ts2, body2) =~= method2 + nl + placed2);
    lemma_first_line(method, placed, method2, placed2);
    lemma_first_line(path, named, path2, named2);
    lemma_first_line(device_id, stamped, device_id2, stamped2);
    lemma_first_line(d, h, d2, h2);
    lemma_hex_tells_apart(crate::crypto::sha256_of(body), crate::crypto::sha256_of(body2));
}

/// A heartbeat reports a node in. It is accepted exactly where its device is
/// bound, its timestamp is above the last accepted one and at most three hundred
/// seconds from the clock, before it or behind it, and its signature is the bound
/// key's over the five lines that it signs. Once accepted, its timestamp is the
/// last one, its heads are the device's, and nothing else has changed.
pub proof fn law_heartbeat_is_accepted_within_the_window(
    v: EnrollView,
    device_id: Seq<char>,
    now_s: u64,
    ts: u64,
    signature: Seq<u8>,
    path: Seq<char>,
    body: Seq<u8>,
    heads: Seq<DisplayHead>,
    other: Seq<char>,
)
    requires
        v.identities.contains_key(device_id),
        other != device_id,
    ensures
        ({
            let lines = seq!['P', 'O', 'S', 'T', '\n'] + path + seq!['\n'] + device_id + seq![
                '\n',
            ] + crate::text::decimal(ts as nat) + seq!['\n'] + hex_of(
                crate::crypto::sha256_of(body),
            );
            let signed = crate::crypto::ed25519_signed_of(
                v.identities[device_id].public_key,
                vstd::utf8::encode_utf8(lines),
                signature,
            );
            let accepted = heartbeat_ok(v, device_id, now_s, ts, Some(signature), path, body);
            &&& signed && ts > v.identities[device_id].last_ts && now_s - 300 <= ts <= now_s + 300
                ==> accepted
            &&& accepted ==> signed && ts > v.identities[device_id].last_ts && now_s - 300 <= ts
                <= now_s + 300
            &&& !heartbeat_ok(v, device_id, now_s, ts, None, path, body)
        }),
        ({
            let after = after_heartbeat(v, device_id, ts, heads);
            &&& after.identities.contains_key(device_id)
            &&& after.identities[device_id].last_ts == ts
            &&& after.identities[device_id].heads == heads
            &&& after.identities[device_id].public_key == v.identities[device_id].public_key
            &&& after.identities.contains_key(other) == v.identities.contains_key(other)
            &&& v.identities.contains_key(other) ==> after.identities[other] == v.identities[other]
            &&& after.tokens == v.tokens
            &&& after.pending == v.pending
        }),
{
    reveal_strlit("POST");
    assert("POST"@ + seq!['\n'] =~= seq!['P', 'O', 'S', 'T', '\n']);
}

/// A token lives as long as was asked for: between a minute and a week, an hour
/// where nothing was said. It is pending from its mint until then and expired from
/// then on, and a lifetime outside the bounds mints nothing.
pub proof fn law_token_lives_as_long_as_asked(
    before: EnrollView,
    after: EnrollView,
    ttl_secs: Option<u64>,
    now_s: u64,
    token_id: Seq<char>,
    secret: Seq<char>,
    r: Result<MintedToken, EnrollError>,
    later: u64,
    other: Seq<char>,
)
    requires
        mint_effect(before, after, ttl_secs, now_s, token_id, secret, r),
        now_s <= 0xffff_ffff_ffff,
        other != token_id,
    ensures
        r is Ok <==> (match ttl_secs {
            Some(ttl) => 60 <= ttl <= 604_800,
            None => true,
        }),
        r is Err ==> after == before,
        r matches Ok(t) ==> {
            let ttl: int = match ttl_secs {
                Some(n) => n as int,
                None => 3_600,
            };
            &&& t.expires_epoch_s == now_s + ttl
            &&& t.created_epoch_s == now_s
            &&& after.tokens.contains_key(token_id)
            &&& after.tokens[token_id].created_epoch_s == now_s
            &&& after.tokens[token_id].expires_epoch_s == now_s + ttl
            &&& after.tokens[token_id].state_at(later) == TokenState::Pending <==> later < now_s + ttl
            &&& after.tokens[token_id].state_at(later) == TokenState::Expired <==> later >= now_s
                + ttl
            &&& after.tokens.contains_key(other) == before.tokens.contains_key(other)
            &&& before.tokens.contains_key(other) ==> after.tokens[other] == before.tokens[other]
            &&& after.pending == before.pending
            &&& after.identities == before.identities
        },
{
}

/// What a token is follows from what was done to it: a redeemed one is used, one
/// that was revoked before it was redeemed is revoked, and time alone expires one
/// that was neither.
pub proof fn law_token_state(t: TokenView, device: Seq<char>, now_s: u64)
    ensures
        (TokenView { used_by: Some(device), ..t }).state_at(now_s) == TokenState::Used,
        (TokenView { used_by: None, revoked: true, ..t }).state_at(now_s) == TokenState::Revoked,
        (TokenView { used_by: None, revoked: false, ..t }).state_at(now_s) == (if now_s
            < t.expires_epoch_s {
            TokenState::Pending
        } else {
            TokenState::Expired
        }),
{
}

/// Whoever redeems a token gets a new identity: the drawn device is bound to the
/// key, shows the heads that were reported, and has accepted no heartbeat yet, so
/// any timestamp but zero is above its last one. The token is used by that device.
/// Nothing else has changed.
pub proof fn law_redeemed_token_binds(
    v: EnrollView,
    key: Seq<u8>,
    request: EnrollRequest,
    now_s: u64,
    device: Seq<char>,
    code: Seq<char>,
    id: Seq<char>,
    secret: Seq<char>,
)
    requires
        v.holder(key) is None,
        !v.pending.contains_key(fingerprint_of(key)),
        request.token is Some,
        request.token->0@ == id + seq!['.'] + secret,
        !id.contains('.'),
        v.tokens.contains_key(id),
        v.tokens[id].secret_hash == crate::crypto::sha256_of(vstd::utf8::encode_utf8(secret)),
        v.tokens[id].used_by is None,
        !v.tokens[id].revoked,
        now_s < v.tokens[id].expires_epoch_s,
    ensures
        ({
            let (after, reply) = enroll_effect(v, key, request, now_s, device, code);
            &&& reply == EnrollReply::Enrolled(device)
            &&& after.identities == v.identities.insert(
                device,
                IdentityView { public_key: key, last_ts: 0, heads: request.heads@ },
            )
            &&& after.tokens.dom() == v.tokens.dom()
            &&& after.tokens[id].used_by == Some(device)
            &&& after.pending == v.pending
        }),
{
    let bearer = id + seq!['.'] + secret;
    let n = id.len() as int;
    crate::text::lemma_first_index(bearer, '.');
    assert(bearer[n] == '.');
    assert(crate::text::first_index(bearer, '.') == Some(n)) by {
        match crate::text::first_index(bearer, '.') {
            Some(i) => {
                if i < n {
                    assert(id[i] == '.');
                }
            },
            None => {},
        }
    }
    assert(bearer.take(n) =~= id);
    assert(bearer.skip(n + 1) =~= secret);
    let (after, reply) = enroll_effect(v, key, request, now_s, device, code);
    assert(after.tokens.dom() =~= v.tokens.dom());
}

/// A token with another secret, with another id, or without a full stop redeems
/// nothing: the request is refused and leaves no trace.
pub proof fn law_wrong_token_leaves_no_trace(
    v: EnrollView,
    key: Seq<u8>,
    request: EnrollRequest,
    now_s: u64,
    device: Seq<char>,
    code: Seq<char>,
)
    requires
        v.holder(key) is None,
        !v.pending.contains_key(fingerprint_of(key)),
        request.token is Some,
        match crate::text::split_first(request.token->0@, '.') {
            Some((id, secret)) => !v.tokens.contains_key(id) || v.tokens[id].secret_hash
                != crate::crypto::sha256_of(vstd::utf8::encode_utf8(secret)),
            None => true,
        },
    ensures
        enroll_effect(v, key, request, now_s, device, code) == (v, EnrollReply::TokenRejected),
{
}

/// A key that is neither known nor pairing and brings no token is given a pairing:
/// it is remembered as the request says it, with the drawn code, and waits for the
/// operator. Only where thirty-two already wait is it sent away.
pub proof fn law_unknown_key_is_given_a_pairing(
    v: EnrollView,
    key: Seq<u8>,
    request: EnrollRequest,
    now_s: u64,
    device: Seq<char>,
    code: Seq<char>,
)
    requires
        v.wf(),
        v.holder(key) is None,
        !v.pending.contains_key(fingerprint_of(key)),
        request.token is None,
    ensures
        ({
            let (after, reply) = enroll_effect(v, key, request, now_s, device, code);
            let f = fingerprint_of(key);
            &&& v.pending.dom().len() == 32 ==> reply == EnrollReply::Full && after == v
            &&& v.pending.dom().len() < 32 ==> {
                &&& reply == EnrollReply::Pairing(code)
                &&& after.pending.dom() == v.pending.dom().insert(f)
                &&& after.pending[f].code == code
                &&& after.pending[f].public_key == key
                &&& after.pending[f].model == request.model@
                &&& after.pending[f].node_name == request.node_name@
                &&& after.pending[f].heads == request.heads@
                &&& after.pending[f].created_epoch_s == now_s
                &&& after.pending[f].paired_device_id is None
                &&& after.awaits(f, code)
                &&& after.tokens == v.tokens
                &&& after.identities == v.identities
            }
        }),
{
    let (after, reply) = enroll_effect(v, key, request, now_s, device, code);
    if v.pending.dom().len() < 32 {
        assert(after.pending.dom() =~= v.pending.dom().insert(fingerprint_of(key)));
    }
}

/// What an answer says to a node: to send a heartbeat every ten seconds once it is
/// enrolled, and to ask again in five seconds while it is pairing.
pub proof fn law_answers_set_the_pace(
    r: Result<EnrollOutcome, EnrollError>,
    device: Seq<char>,
    code: Seq<char>,
)
    ensures
        reply_is(r, EnrollReply::Enrolled(device)) ==> (r matches Ok(
            EnrollOutcome::Enrolled { device_id, heartbeat_secs },
        ) && device_id@ == device && heartbeat_secs == 10),
        reply_is(r, EnrollReply::Pairing(code)) ==> (r matches Ok(
            EnrollOutcome::Pairing { pairing_code, retry_secs },
        ) && pairing_code@ == code && retry_secs == 5),
        reply_is(r, EnrollReply::TokenRejected) ==> r == Err::<EnrollOutcome, EnrollError>(
            EnrollError::TokenRejected,
        ),
        reply_is(r, EnrollReply::Full) ==> r == Err::<EnrollOutcome, EnrollError>(
            EnrollError::PairingTableFull,
        ),
{
}

/// An assignment can be undone: where no pairing was assigned to the device
/// before, completing one for it and undoing the assignment leaves everything as
/// it was.
pub proof fn law_assignment_can_be_undone(
    v: EnrollView,
    after: EnrollView,
    code: Seq<char>,
    device: Seq<char>,
    display_name: Option<Seq<char>>,
    r: PairCompletion,
)
    requires
        pair_effect(v, after, code, device, display_name, r),
        forall|f: Seq<char>| #[trigger]
            v.pending.contains_key(f) ==> v.pending[f].paired_device_id != Some(device),
    ensures
        (EnrollView { pending: after.unassigned(device), ..after }) == v,
{
    let undone = EnrollView { pending: after.unassigned(device), ..after };
    assert(undone.pending =~= v.pending) by {
        assert forall|f: Seq<char>| v.pending.contains_key(f) implies undone.pending[f]
            == v.pending[f] by {
            assert(v.pending[f].paired_device_id != Some(device));
        }
    }
}

/// A completed pairing is one whose node showed the code and waited, and it says of
/// the node what the node said of itself. Where no node that waits shows the code,
/// there is nothing to complete.
pub proof fn law_completion_finds_the_node_that_shows_the_code(
    v: EnrollView,
    after: EnrollView,
    code: Seq<char>,
    device: Seq<char>,
    r: PairCompletion,
    f: Seq<char>,
)
    requires
        codes_distinct(v),
        pair_effect(v, after, code, device, None, r),
        v.pending.contains_key(f),
        v.pending[f].paired_device_id is None,
        v.pending[f].code == typed_code(code),
    ensures
        r matches PairCompletion::Completed { device_id, node_name, public_key_b64, heads }
            && device_id@ == device && node_name@ == v.pending[f].node_name
            && crate::crypto::base64_decoded_of(public_key_b64@) == Some(v.pending[f].public_key)
            && heads@ == v.pending[f].heads,
        after.pending.dom() == v.pending.dom(),
        after.pending[f].paired_device_id == Some(device),
        after.pending[f].code == v.pending[f].code,
        after.identities == v.identities,
        after.tokens == v.tokens,
{
    assert(v.awaits(f, typed_code(code)));
    if let PairCompletion::Completed { device_id, node_name, public_key_b64, heads } = r {
        let g = choose|g: Seq<char>|
            #[trigger] v.awaits(g, typed_code(code)) && after == (EnrollView {
                pending: v.pending.insert(
                    g,
                    PendingView { paired_device_id: Some(device), ..v.pending[g] },
                ),
                ..v
            }) && device_id@ == device && node_name@ == v.pending[g].node_name
                && public_key_b64@ == crate::crypto::base64_of(v.pending[g].public_key)
                && crate::crypto::base64_decoded_of(public_key_b64@) == Some(
                v.pending[g].public_key,
            ) && heads@ == v.pending[g].heads;
        assert(v.pending[f].code == v.pending[g].code);
        assert(f == g);
        assert(after.pending.dom() =~= v.pending.dom());
    }
}

/// The value of a lower-case hex digit.
pub open spec fn nibble(c: char) -> int {
    if '0' <= c <= '9' {
        c as int - '0' as int
    } else {
        c as int - 'a' as int + 10
    }
}

/// Bytes can be read back from their hex: two digits stand for each byte, the
/// higher half first, and every digit is a decimal one or a lower-case letter up
/// to f.
pub proof fn law_hex_reads_back(bytes: Seq<u8>)
    ensures
        hex_of(bytes).len() == 2 * bytes.len(),
        forall|i: int|
            0 <= i < bytes.len() ==> #[trigger] bytes[i] == nibble(hex_of(bytes)[2 * i]) * 16
                + nibble(hex_of(bytes)[2 * i + 1]),
        forall|i: int|
            0 <= i < hex_of(bytes).len() ==> '0' <= #[trigger] hex_of(bytes)[i] <= '9' || 'a'
                <= hex_of(bytes)[i] <= 'f',
    decreases bytes.len(),
{
    if bytes.len() > 0 {
        let fore = bytes.drop_last();
        law_hex_reads_back(fore);
        let last = bytes.last() as int;
        let h = hex_of(bytes);
        assert forall|i: int| 0 <= i < bytes.len() implies #[trigger] bytes[i] == nibble(h[2 * i])
            * 16 + nibble(h[2 * i + 1]) by {
            if i < fore.len() {
                assert(fore[i] == bytes[i]);
                assert(h[2 * i] == hex_of(fore)[2 * i]);
                assert(h[2 * i + 1] == hex_of(fore)[2 * i + 1]);
            } else {
                assert(h[2 * i] == hex_digit(last / 16));
                assert(h[2 * i + 1] == hex_digit(last % 16));
            }
        }
        assert forall|i: int| 0 <= i < h.len() implies '0' <= #[trigger] h[i] <= '9' || 'a' <= h[i]
            <= 'f' by {
            if i < hex_of(fore).len() {
                assert(h[i] == hex_of(fore)[i]);
            }
        }
    }
}

/// A public key is accepted exactly where the text, without white space around it,
/// is the base64 of thirty-two bytes that are a key, and a signature exactly where
/// it is the base64 of sixty-four.
pub proof fn law_submitted_key_and_signature(text: Seq<char>, bytes: Seq<u8>)
    requires
        crate::crypto::base64_decoded_of(crate::text::trim_of(text, CharClass::White)) == Some(bytes),
    ensures
        submitted_key(text) == KeyView::Key(bytes) <==> bytes.len() == 32
            && crate::crypto::ed25519_key_of(bytes),
        bytes.len() != 32 ==> submitted_key(text) == KeyView::WrongLength,
        submitted_signature(text) == (if bytes.len() == 64 {
            Some(bytes)
        } else {
            None
        }),
{
}

/// A drawn code is six characters long, each an upper-case letter or a digit, and
/// none that looks like another on a screen.
pub proof fn law_code_is_easy_to_read(code: Seq<char>, i: int)
    requires
        is_code(code),
        0 <= i < code.len(),
    ensures
        code.len() == 6,
        'A' <= code[i] <= 'Z' || '2' <= code[i] <= '9',
        code[i] != 'I' && code[i] != 'O',
{
    reveal_strlit("ABCDEFGHJKLMNPQRSTUVWXYZ23456789");
    let bytes = choose|bytes: Seq<u8>| bytes.len() == CODE_LEN && code == #[trigger] code_of(bytes);
    assert(code[i] == code_alphabet()[bytes[i] as int % 32]);
}

/// Every one of the thirty-two characters of a code is as likely as any other: two
/// bytes give the same one exactly where they agree in their lower five bits.
pub proof fn law_code_characters_are_even(a: Seq<u8>, b: Seq<u8>, i: int)
    requires
        a.len() == b.len(),
        0 <= i < a.len(),
    ensures
        code_of(a).len() == a.len(),
        code_of(a)[i] == code_of(b)[i] <==> a[i] % 32 == b[i] % 32,
{
    if code_of(a)[i] == code_of(b)[i] {
        lemma_alphabet_distinct(a[i] as int % 32, b[i] as int % 32);
    }
}

/// An operator may type a code in lower case: it is taken as the code on the
/// screen.
pub proof fn law_code_may_be_typed_in_lower_case(code: Seq<char>, typed: Seq<char>)
    requires
        is_code(code),
        typed.len() == code.len(),
        forall|i: int|
            0 <= i < code.len() ==> #[trigger] typed[i] == code[i] || (code[i] >= 'A' && typed[i]
                as int == code[i] as int + 32),
    ensures
        typed_code(typed) == code,
{
    assert forall|i: int| 0 <= i < code.len() implies !crate::text::is_white(#[trigger] typed[i])
        && crate::text::upper_of(typed[i]) == code[i] by {
        law_code_is_easy_to_read(code, i);
    }
    law_code_is_easy_to_read(code, 0);
    assert(!crate::text::is_white(typed[0]));
    assert(!crate::text::is_white(typed[typed.len() - 1]));
    assert(crate::text::trim_of(typed, CharClass::White) == typed);
    assert(typed_code(typed) =~= code);
}

/// What a node signs is five lines: the method, the path, its device id, the time and
/// the digest of the body, in this order.
pub proof fn law_signed_message_is_five_lines(
    method: Seq<char>,
    path: Seq<char>,
    device_id: Seq<char>,
    ts: u64,
    body: Seq<u8>,
)
    ensures
        canonical_of(method, path, device_id, ts, body) == crate::text::join_of(
            seq![
                method,
                path,
                device_id,
                crate::text::decimal(ts as nat),
                hex_of(crate::crypto::sha256_of(body)),
            ],
            seq!['\n'],
        ),
{
    let lines = seq![
        method,
        path,
        device_id,
        crate::text::decimal(ts as nat),
        hex_of(crate::crypto::sha256_of(body)),
    ];
    let l4 = lines.drop_last();
    let l3 = l4.drop_last();
    let l2 = l3.drop_last();
    let l1 = l2.drop_last();
    let n = seq!['\n'];
    assert(crate::text::join_of(l1, n) == method);
    assert(crate::text::join_of(l2, n) == method + n + path);
    assert(crate::text::join_of(l3, n) == method + n + path + n + device_id);
    assert(crate::text::join_of(l4, n) == method + n + path + n + device_id + n
        + crate::text::decimal(ts as nat));
    assert(crate::text::join_of(lines, n) == crate::text::join_of(l4, n) + n + lines.last());
}

/// A heartbeat moves the time of the node that sent it and what it shows; its key and
/// every other node stay.
pub proof fn law_heartbeat_moves_one_node(
    v: EnrollView,
    device_id: Seq<char>,
    other: Seq<char>,
    ts: u64,
    heads: Seq<DisplayHead>,
)
    requires
        v.identities.contains_key(device_id),
        other != device_id,
    ensures
        ({
            let after = after_heartbeat(v, device_id, ts, heads);
            &&& after.identities[device_id].last_ts == ts
            &&& after.identities[device_id].heads == heads
            &&& after.identities[device_id].public_key == v.identities[device_id].public_key
            &&& after.identities.contains_key(other) == v.identities.contains_key(other)
            &&& v.identities.contains_key(other) ==> after.identities[other] == v.identities[other]
            &&& after.tokens == v.tokens
            &&& after.pending == v.pending
        }),
{
}

/// A listed token shows its times, whose it is and how it stands, as they are kept.
pub proof fn law_listed_token_is_as_kept(row: TokenSummary, t: TokenView, now_s: u64)
    requires
        summary_of(row, t, now_s),
    ensures
        row.created_epoch_s == t.created_epoch_s,
        row.expires_epoch_s == t.expires_epoch_s,
        crate::text::text_opt(row.used_by) == t.used_by,
        row.state == TokenState::Used <==> t.used_by is Some,
        row.state == TokenState::Revoked <==> t.used_by is None && t.revoked,
        row.state == TokenState::Expired <==> t.used_by is None && !t.revoked && now_s
            >= t.expires_epoch_s,
        row.state == TokenState::Pending <==> t.used_by is None && !t.revoked && now_s
            < t.expires_epoch_s,
{
}

/// A key that cannot be used is refused with what is wrong with it, and a lifetime that
/// is out of range with the range.
pub proof fn law_refusals_say_what_is_wrong(v: KeyView, ttl: u64)
    ensures
        v is NotBase64 ==> key_refusal(v) == "public_key is not valid base64"@,
        v is WrongLength ==> key_refusal(v) == "public_key must be 32 bytes"@,
        v is NotAKey ==> key_refusal(v) == "public_key is not a valid Ed25519 key"@,
        ttl_message(ttl) == "ttl_secs "@ + crate::text::decimal(ttl as nat)
            + " is out of range (60..=604800)"@,
{
}

} // verus!
