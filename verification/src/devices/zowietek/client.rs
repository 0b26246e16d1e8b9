//! The requests that an appliance understands, and how its replies are read.
//!
//! Replies are read with care: a status counts by its number and not by its
//! text, an empty body is an error of its own, a device that says it is busy
//! is asked again after a while, and one that drops the connection is
//! unreachable, unless it was told to restart.

use vstd::prelude::*;

use crate::json::{copy_json, parse_json, put, Json};
use crate::text::{cat2, cat3, debug_text, decimal_text, parse_unsigned, trim, trim_end, CharClass};
use crate::time::Duration;

verus! {

/// The lowest bitrate that is plausible in bits per second.
pub const MIN_PLAUSIBLE_BPS: u64 = 100_000;

/// How often a busy device is asked again.
pub const MAX_BUSY_RETRIES: u32 = 4;

/// A bitrate in bits per second.
#[derive(Debug, Clone, Copy, PartialEq, Eq, PartialOrd, Ord, Structural)]
pub struct BitrateBps {
    bps: u64,
}

impl BitrateBps {
    /// The bitrate.
    pub closed spec fn view(self) -> u64 {
        self.bps
    }

    /// A reported bitrate. One that is too small was given in another unit.
    pub fn from_field(field: u64) -> (r: Result<Self, ZowietekClientError>)
        ensures
            match r {
                Ok(b) => field >= 100_000 && b@ == field,
                Err(e) => field < 100_000 && e@ == ClientErrorView::ImplausibleBitrate(
                    field,
                ),
            },
    {
        if field < MIN_PLAUSIBLE_BPS {
            return Err(ZowietekClientError::ImplausibleBitrate { field });
        }
        Ok(BitrateBps { bps: field })
    }

    /// The bitrate.
    pub fn get(self) -> (r: u64)
        ensures
            r == self@,
    {
        self.bps
    }
}

/// Whether a request reads or writes.
#[derive(Debug, Clone, Copy, PartialEq, Eq, Structural)]
pub enum RpcVerb {
    /// It reads.
    GetInfo,
    /// It writes.
    SetInfo,
}

/// The query token of a verb.
pub open spec fn verb_token(v: RpcVerb) -> Seq<char> {
    match v {
        RpcVerb::GetInfo => "getinfo"@,
        RpcVerb::SetInfo => "setinfo"@,
    }
}

impl RpcVerb {
    /// The query token.
    pub fn query_token(self) -> (r: &'static str)
        ensures
            r@ == verb_token(self),
    {
        match self {
            RpcVerb::GetInfo => "getinfo",
            RpcVerb::SetInfo => "setinfo",
        }
    }
}

// ---- Statuses ----------------------------------------------------------------

/// The number of a status code; none where it is no number.
pub open spec fn status_number(code: Seq<char>) -> Option<nat> {
    crate::text::unsigned_of(crate::text::trim_of(code, CharClass::White), u32::MAX as nat)
}

/// A status is one that asks for patience: too fast, or restarting.
pub open spec fn busy_number(n: Option<nat>) -> bool {
    n == Some(9nat) || n == Some(10nat)
}

/// A status rejects our credentials.
pub open spec fn auth_number(n: Option<nat>) -> bool {
    n == Some(2nat) || n == Some(3nat)
}

/// The status code of a reply.
#[derive(Debug, PartialEq, Eq)]
pub struct ZowietekStatus {
    numeric: Option<u32>,
    raw: String,
}

impl ZowietekStatus {
    /// The code as it came.
    pub closed spec fn view(self) -> Seq<char> {
        self.raw@
    }

    /// The number was read off the code.
    pub closed spec fn wf(self) -> bool {
        match self.numeric {
            Some(n) => status_number(self.raw@) == Some(n as nat),
            None => status_number(self.raw@) is None,
        }
    }

    /// Read a status code.
    pub fn from_code(code: &str) -> (r: Self)
        ensures
            r.wf(),
            r@ == code@,
    {
        let numeric = match parse_unsigned(trim(code, CharClass::White), u32::MAX as u64) {
            Some(n) => Some(n as u32),
            None => None,
        };
        ZowietekStatus { numeric, raw: code.to_owned() }
    }

    /// Read a status code. The text beside it is not looked at.
    pub fn from_parts(_rsp: &str, status: &str) -> (r: Self)
        ensures
            r.wf(),
            r@ == status@,
    {
        ZowietekStatus::from_code(status)
    }

    /// The code as it came.
    pub fn as_str(&self) -> (r: &str)
        ensures
            r@ == self@,
    {
        self.raw.as_str()
    }

    /// Whether the code has this number.
    fn is(&self, n: u32) -> (r: bool)
        requires
            self.wf(),
        ensures
            r == (status_number(self@) == Some(n as nat)),
    {
        match self.numeric {
            Some(m) => m == n,
            None => false,
        }
    }

    /// Whether the request succeeded.
    pub fn is_success(&self) -> (r: bool)
        requires
            self.wf(),
        ensures
            r == (status_number(self@) == Some(0nat)),
    {
        self.is(0)
    }

    /// Whether requests come too fast.
    pub fn is_rate_limited(&self) -> (r: bool)
        requires
            self.wf(),
        ensures
            r == (status_number(self@) == Some(9nat)),
    {
        self.is(9)
    }

    /// Whether the device is restarting.
    pub fn is_restarting(&self) -> (r: bool)
        requires
            self.wf(),
        ensures
            r == (status_number(self@) == Some(10nat)),
    {
        self.is(10)
    }

    /// Whether the request does not fit the mode of the device.
    pub fn is_workmode_unsupported(&self) -> (r: bool)
        requires
            self.wf(),
        ensures
            r == (status_number(self@) == Some(4nat)),
    {
        self.is(4)
    }

    /// Whether the device asks for patience.
    pub fn is_busy(&self) -> (r: bool)
        requires
            self.wf(),
        ensures
            r == busy_number(status_number(self@)),
    {
        self.is_rate_limited() || self.is_restarting()
    }
}

/// Whether a status code rejects our credentials.
pub fn is_auth_status(status: &str) -> (r: bool)
    ensures
        r == auth_number(status_number(status@)),
{
    match parse_unsigned(trim(status, CharClass::White), u32::MAX as u64) {
        Some(n) => n == 2 || n == 3,
        None => false,
    }
}

// ---- Outcomes ----------------------------------------------------------------

/// What came back over the wire.
#[derive(Debug, PartialEq, Eq)]
pub enum TransportResponse {
    /// A body, or none.
    Body(Option<Vec<u8>>),
    /// The connection was dropped.
    Dropped,
}

/// A request that could not be made.
#[derive(Debug, PartialEq, Eq)]
pub struct TransportError {
    /// Why.
    pub message: String,
}

impl TransportError {
    /// A failure with its cause.
    pub fn new(message: &str) -> (r: Self)
        ensures
            r.message@ == message@,
    {
        TransportError { message: message.to_owned() }
    }

    /// The failure in words.
    pub fn text(&self) -> (r: String)
        ensures
            r@ == "zowietek transport error: "@ + self.message@,
    {
        cat2("zowietek transport error: ", self.message.as_str())
    }
}

/// What a request that got no answer comes to. One that timed out, found no
/// connection or broke off counts as dropped: the box may be restarting. Any
/// other failure is one of the transport.
pub fn unanswered(
    timed_out: bool,
    not_connected: bool,
    broke_off: bool,
    message: &str,
) -> (r: Result<TransportResponse, TransportError>)
    ensures
        if timed_out || not_connected || broke_off {
            r == Ok::<TransportResponse, TransportError>(TransportResponse::Dropped)
        } else {
            r matches Err(e) && e.message@ == message@
        },
{
    if timed_out || not_connected || broke_off {
        Ok(TransportResponse::Dropped)
    } else {
        Err(TransportError::new(message))
    }
}

/// Why a request failed.
#[derive(Debug, PartialEq, Eq)]
#[allow(inconsistent_fields)]
pub enum ZowietekClientError {
    /// The body was empty.
    EmptyBody {
        /// The module.
        module: String,
    },
    /// The body was no reply.
    Malformed {
        /// The module.
        module: String,
        /// What was wrong with it.
        detail: String,
    },
    /// The status was no success.
    Status {
        /// The module.
        module: String,
        /// The status code.
        status: String,
        /// What kind of status it is.
        detail: &'static str,
    },
    /// The device stayed busy.
    Busy {
        /// The module.
        module: String,
        /// The last status code.
        status: String,
        /// How often it was asked again.
        retries: u32,
    },
    /// The connection was dropped.
    Unreachable {
        /// The module.
        module: String,
    },
    /// The request could not be made.
    Transport(TransportError),
    /// A bitrate was too small.
    ImplausibleBitrate {
        /// The reported number.
        field: u64,
    },
}

/// Why a request failed, its texts as sequences.
pub enum ClientErrorView {
    /// The body was empty: the module.
    EmptyBody(Seq<char>),
    /// The body was no reply: the module and what was wrong.
    Malformed(Seq<char>, Seq<char>),
    /// The status was no success: the module, the code and its kind.
    Status(Seq<char>, Seq<char>, Seq<char>),
    /// The device stayed busy: the module, the last code and the retries.
    Busy(Seq<char>, Seq<char>, u32),
    /// The connection was dropped: the module.
    Unreachable(Seq<char>),
    /// The request could not be made.
    Transport(Seq<char>),
    /// A bitrate was too small.
    ImplausibleBitrate(u64),
}

/// A failure in words.
pub open spec fn client_error_text(e: ClientErrorView) -> Seq<char> {
    match e {
        ClientErrorView::EmptyBody(module) => "device "@ + crate::text::debug_of(module)
            + " returned an empty body (group/opt does not fit the workmode)"@,
        ClientErrorView::Malformed(module, detail) => "device "@ + crate::text::debug_of(module)
            + " returned a malformed response: "@ + detail,
        ClientErrorView::Status(module, status, detail) => "device "@ + crate::text::debug_of(
            module,
        ) + " returned status "@ + crate::text::debug_of(status) + " ("@ + detail + ")"@,
        ClientErrorView::Busy(module, status, retries) => "device "@ + crate::text::debug_of(module)
            + " stayed busy ("@ + crate::text::debug_of(status) + ") across "@
            + crate::text::decimal(retries as nat) + " retries"@,
        ClientErrorView::Unreachable(module) => "device "@ + crate::text::debug_of(module)
            + " dropped the connection with no response (unreachable/rebooting)"@,
        ClientErrorView::Transport(message) => "zowietek transport error: "@ + message,
        ClientErrorView::ImplausibleBitrate(field) => "implausible bitrate field "@
            + crate::text::decimal(field as nat)
            + " (too small for bits/sec; kbps-shaped?)"@,
    }
}

impl ZowietekClientError {
    /// The failure, its texts as sequences.
    pub open spec fn view(self) -> ClientErrorView {
        match self {
            ZowietekClientError::EmptyBody { module } => ClientErrorView::EmptyBody(module@),
            ZowietekClientError::Malformed { module, detail } => ClientErrorView::Malformed(
                module@,
                detail@,
            ),
            ZowietekClientError::Status { module, status, detail } => ClientErrorView::Status(
                module@,
                status@,
                detail@,
            ),
            ZowietekClientError::Busy { module, status, retries } => ClientErrorView::Busy(
                module@,
                status@,
                retries,
            ),
            ZowietekClientError::Unreachable { module } => ClientErrorView::Unreachable(module@),
            ZowietekClientError::Transport(e) => ClientErrorView::Transport(e.message@),
            ZowietekClientError::ImplausibleBitrate { field } => ClientErrorView::ImplausibleBitrate(
                field,
            ),
        }
    }

    /// The failure in words.
    pub fn message(&self) -> (r: String)
        ensures
            r@ == client_error_text(self@),
    {
        match self {
            ZowietekClientError::EmptyBody { module } => {
                let m = debug_text(module.as_str());
                cat3(
                    "device ",
                    m.as_str(),
                    " returned an empty body (group/opt does not fit the workmode)",
                )
            },
            ZowietekClientError::Malformed { module, detail } => {
                let m = debug_text(module.as_str());
                let head = cat3("device ", m.as_str(), " returned a malformed response: ");
                cat2(head.as_str(), detail.as_str())
            },
            ZowietekClientError::Status { module, status, detail } => {
                let m = debug_text(module.as_str());
                let s = debug_text(status.as_str());
                let head = cat3("device ", m.as_str(), " returned status ");
                let mid = cat3(head.as_str(), s.as_str(), " (");
                cat3(mid.as_str(), detail, ")")
            },
            ZowietekClientError::Busy { module, status, retries } => {
                let m = debug_text(module.as_str());
                let s = debug_text(status.as_str());
                let n = decimal_text(*retries as u64);
                let head = cat3("device ", m.as_str(), " stayed busy (");
                let mid = cat3(head.as_str(), s.as_str(), ") across ");
                cat3(mid.as_str(), n.as_str(), " retries")
            },
            ZowietekClientError::Unreachable { module } => {
                let m = debug_text(module.as_str());
                cat3(
                    "device ",
                    m.as_str(),
                    " dropped the connection with no response (unreachable/rebooting)",
                )
            },
            ZowietekClientError::Transport(e) => e.text(),
            ZowietekClientError::ImplausibleBitrate { field } => {
                let n = decimal_text(*field);
                cat3(
                    "implausible bitrate field ",
                    n.as_str(),
                    " (too small for bits/sec; kbps-shaped?)",
                )
            },
        }
    }
}

/// The kind of a status that is neither a success nor busy.
pub open spec fn status_kind(n: Option<nat>) -> Seq<char> {
    if n == Some(4nat) {
        "workmode-unsupported"@
    } else {
        "device-error"@
    }
}

/// The failure of a status that is no success.
pub open spec fn status_failure(module: Seq<char>, code: Seq<char>) -> ClientErrorView {
    ClientErrorView::Status(module, code, status_kind(status_number(code)))
}

/// The failure of a status that is no success.
fn classify_status(module: &str, status: &ZowietekStatus) -> (r: ZowietekClientError)
    requires
        status.wf(),
    ensures
        r@ == status_failure(module@, status@),
{
    let detail = if status.is_workmode_unsupported() {
        "workmode-unsupported"
    } else {
        "device-error"
    };
    ZowietekClientError::Status {
        module: module.to_owned(),
        status: status.as_str().to_owned(),
        detail,
    }
}

// ---- Envelopes ---------------------------------------------------------------

/// What came back over the wire, its bytes and texts as sequences.
pub enum ReplyView {
    /// A body, or none.
    Body(Option<Seq<u8>>),
    /// The connection was dropped.
    Dropped,
    /// The request could not be made.
    Failed(Seq<char>),
}

/// The view of a reply.
pub open spec fn reply_view(reply: Result<TransportResponse, TransportError>) -> ReplyView {
    match reply {
        Ok(TransportResponse::Body(Some(b))) => ReplyView::Body(Some(b@)),
        Ok(TransportResponse::Body(None)) => ReplyView::Body(None),
        Ok(TransportResponse::Dropped) => ReplyView::Dropped,
        Err(e) => ReplyView::Failed(e.message@),
    }
}

/// The bytes of a reply. An empty body is none.
pub open spec fn reply_bytes(module: Seq<char>, reply: ReplyView) -> Result<
    Option<Seq<u8>>,
    ClientErrorView,
> {
    match reply {
        ReplyView::Body(Some(b)) => if b.len() == 0 {
            Ok(None)
        } else {
            Ok(Some(b))
        },
        ReplyView::Body(None) => Ok(None),
        ReplyView::Dropped => Err(ClientErrorView::Unreachable(module)),
        ReplyView::Failed(message) => Err(ClientErrorView::Transport(message)),
    }
}

/// A field of an envelope, by its name in an object or its place in an array.
pub open spec fn slot(envelope: crate::json::JsonView, name: Seq<char>, place: int) -> Option<
    crate::json::JsonView,
> {
    match envelope {
        crate::json::JsonView::List(items) => if place < items.len() {
            Some(items[place])
        } else {
            None
        },
        _ => envelope.field(name),
    }
}

/// An envelope is an object, or an array of at most so many items.
pub open spec fn is_record(envelope: crate::json::JsonView, places: nat) -> bool {
    match envelope {
        crate::json::JsonView::Object(_) => true,
        crate::json::JsonView::List(items) => items.len() <= places,
        _ => false,
    }
}

/// The status and the data of a reply; none where the envelope is no reply. A
/// missing status is empty, and data that is `null` is missing.
pub open spec fn rpc_envelope(envelope: crate::json::JsonView) -> Option<
    (Seq<char>, crate::json::JsonView),
> {
    if !is_record(envelope, 2) {
        None
    } else {
        let data = match slot(envelope, "data"@, 1) {
            Some(d) => d,
            None => crate::json::JsonView::Null,
        };
        match slot(envelope, "status"@, 0) {
            None => Some((Seq::empty(), data)),
            Some(crate::json::JsonView::Text(t)) => Some((t, data)),
            Some(_) => None,
        }
    }
}

/// The id of a session, where its envelope is one and has one.
pub open spec fn login_uuid(data: crate::json::JsonView) -> Option<Option<Seq<char>>> {
    if data is Null {
        Some(None)
    } else if !is_record(data, 1) {
        None
    } else {
        match slot(data, "uuid"@, 0) {
            None => Some(None),
            Some(crate::json::JsonView::Null) => Some(None),
            Some(crate::json::JsonView::Text(t)) => Some(Some(t)),
            Some(_) => None,
        }
    }
}

/// The status and the session id of a login reply; none where it is no reply.
pub open spec fn login_envelope(envelope: crate::json::JsonView) -> Option<
    (Seq<char>, Option<Seq<char>>),
> {
    match slot(envelope, "status"@, 0) {
        Some(crate::json::JsonView::Text(t)) => match rpc_envelope(envelope) {
            Some((_, data)) => match login_uuid(data) {
                Some(u) => Some((t, u)),
                None => None,
            },
            None => None,
        },
        _ => None,
    }
}

/// The complaint about a document that is no reply.
pub open spec fn bad_envelope() -> Seq<char> {
    "not a reply envelope"@
}

/// What a reply to a request comes to.
pub enum ReadingView {
    /// The data of a success.
    Data(crate::json::JsonView),
    /// The device asks for patience: the status code.
    Busy(Seq<char>),
    /// A failure.
    Failed(ClientErrorView),
}

/// What a document comes to, as the reply of a module.
pub open spec fn reading_of(module: Seq<char>, document: Result<crate::json::JsonView, Seq<char>>) -> ReadingView {
    match document {
        Err(detail) => ReadingView::Failed(ClientErrorView::Malformed(module, detail)),
        Ok(envelope) => match rpc_envelope(envelope) {
            None => ReadingView::Failed(ClientErrorView::Malformed(module, bad_envelope())),
            Some((code, data)) => {
                let n = status_number(code);
                if n == Some(0nat) {
                    ReadingView::Data(data)
                } else if busy_number(n) {
                    ReadingView::Busy(code)
                } else {
                    ReadingView::Failed(status_failure(module, code))
                }
            },
        },
    }
}

/// What a reply comes to.
pub open spec fn reading(module: Seq<char>, reply: ReplyView) -> ReadingView {
    match reply_bytes(module, reply) {
        Err(e) => ReadingView::Failed(e),
        Ok(None) => ReadingView::Failed(ClientErrorView::EmptyBody(module)),
        Ok(Some(bytes)) => reading_of(module, crate::json::json_of(bytes)),
    }
}

/// What a reply to a request comes to.
pub enum Reading {
    /// The data of a success.
    Data(Json),
    /// The device asks for patience: the status code.
    Busy(String),
    /// A failure.
    Failed(ZowietekClientError),
}

impl Reading {
    /// The reading, its texts as sequences.
    pub open spec fn view(self) -> ReadingView {
        match self {
            Reading::Data(d) => ReadingView::Data(d@),
            Reading::Busy(code) => ReadingView::Busy(code@),
            Reading::Failed(e) => ReadingView::Failed(e@),
        }
    }
}

/// A field of an envelope.
fn find_slot<'a>(envelope: &'a Json, name: &str, place: usize) -> (r: Option<&'a Json>)
    ensures
        match r {
            Some(v) => slot(envelope@, name@, place as int) == Some(v@),
            None => slot(envelope@, name@, place as int) is None,
        },
{
    match envelope {
        Json::List(items) => {
            assert(envelope@->List_0 =~= crate::json::items_view(items@));
            if place < items.len() {
                Some(&items[place])
            } else {
                None
            }
        },
        _ => envelope.field(name),
    }
}

/// Whether an envelope is an object, or a short array.
fn record(envelope: &Json, places: usize) -> (r: bool)
    ensures
        r == is_record(envelope@, places as nat),
{
    match envelope {
        Json::Object(_) => true,
        Json::List(items) => {
            assert(envelope@->List_0 =~= crate::json::items_view(items@));
            items.len() <= places
        },
        _ => false,
    }
}

/// The status and the data of a reply.
fn open_envelope(envelope: &Json) -> (r: Option<(String, Json)>)
    ensures
        match r {
            Some(p) => rpc_envelope(envelope@) == Some((p.0@, p.1@)),
            None => rpc_envelope(envelope@) is None,
        },
{
    if !record(envelope, 2) {
        return None;
    }
    let data = match find_slot(envelope, "data", 1) {
        Some(d) => copy_json(d),
        None => Json::Null,
    };
    match find_slot(envelope, "status", 0) {
        None => {
            let empty = String::new();
            assert(empty@ =~= Seq::<char>::empty());
            Some((empty, data))
        },
        Some(v) => match v {
            Json::Text(t) => Some((t.clone(), data)),
            _ => None,
        },
    }
}

/// The id of a session.
fn read_uuid(data: &Json) -> (r: Option<Option<String>>)
    ensures
        match r {
            Some(u) => login_uuid(data@) == Some(crate::text::text_opt(u)),
            None => login_uuid(data@) is None,
        },
{
    if let Json::Null = data {
        return Some(None);
    }
    if !record(data, 1) {
        return None;
    }
    match find_slot(data, "uuid", 0) {
        None => Some(None),
        Some(v) => match v {
            Json::Null => Some(None),
            Json::Text(t) => Some(Some(t.clone())),
            _ => None,
        },
    }
}

/// What a document comes to, as the reply of a module.
pub fn read_document(module: &str, document: Result<Json, String>) -> (r: Reading)
    ensures
        r@ == reading_of(
            module@,
            match document {
                Ok(j) => Ok(j@),
                Err(e) => Err(e@),
            },
        ),
{
    let envelope = match document {
        Err(detail) => {
            return Reading::Failed(
                ZowietekClientError::Malformed { module: module.to_owned(), detail },
            );
        },
        Ok(j) => j,
    };
    match open_envelope(&envelope) {
        None => Reading::Failed(
            ZowietekClientError::Malformed {
                module: module.to_owned(),
                detail: "not a reply envelope".to_owned(),
            },
        ),
        Some((code, data)) => {
            let status = ZowietekStatus::from_code(code.as_str());
            if status.is_success() {
                Reading::Data(data)
            } else if status.is_busy() {
                Reading::Busy(code)
            } else {
                Reading::Failed(classify_status(module, &status))
            }
        },
    }
}

/// The bytes of a reply.
fn raw_reply(module: &str, reply: Result<TransportResponse, TransportError>) -> (r: Result<
    Option<Vec<u8>>,
    ZowietekClientError,
>)
    ensures
        match r {
            Ok(Some(b)) => reply_bytes(module@, reply_view(reply)) == Ok::<
                Option<Seq<u8>>,
                ClientErrorView,
            >(Some(b@)),
            Ok(None) => reply_bytes(module@, reply_view(reply)) == Ok::<
                Option<Seq<u8>>,
                ClientErrorView,
            >(None),
            Err(e) => reply_bytes(module@, reply_view(reply)) == Err::<
                Option<Seq<u8>>,
                ClientErrorView,
            >(e@),
        },
{
    match reply {
        Ok(TransportResponse::Body(Some(bytes))) => if bytes.len() == 0 {
            Ok(None)
        } else {
            Ok(Some(bytes))
        },
        Ok(TransportResponse::Body(None)) => Ok(None),
        Ok(TransportResponse::Dropped) => Err(
            ZowietekClientError::Unreachable { module: module.to_owned() },
        ),
        Err(e) => Err(ZowietekClientError::Transport(e)),
    }
}

/// What a reply to a request comes to.
pub fn read_reply(module: &str, reply: Result<TransportResponse, TransportError>) -> (r: Reading)
    ensures
        r@ == reading(module@, reply_view(reply)),
{
    match raw_reply(module, reply) {
        Err(e) => Reading::Failed(e),
        Ok(None) => Reading::Failed(ZowietekClientError::EmptyBody { module: module.to_owned() }),
        Ok(Some(bytes)) => {
            let document = parse_json(bytes.as_slice());
            read_document(module, document)
        },
    }
}

// ---- Patience ----------------------------------------------------------------

/// The wait before a busy device is asked for the `attempt`th time again, in
/// milliseconds.
pub open spec fn busy_millis(attempt: u32) -> nat {
    if attempt == 0 {
        250
    } else if attempt == 1 {
        500
    } else if attempt == 2 {
        1_000
    } else if attempt == 3 {
        2_000
    } else {
        4_000
    }
}

/// The wait before a busy device is asked again: twice the one before, up to
/// four seconds.
pub fn busy_backoff(attempt: u32) -> (r: Duration)
    ensures
        r@ == busy_millis(attempt) * 1_000_000,
{
    let mut ms: u64 = 250;
    let mut i: u32 = 0;
    while i < attempt && ms < 4_000
        invariant
            i <= attempt,
            i <= 4,
            ms == busy_millis(i),
            i < 4 ==> ms < 4_000,
            i == 4 ==> ms == 4_000,
        decreases attempt - i,
    {
        ms = ms * 2;
        i += 1;
    }
    Duration::from_millis(ms)
}

/// What a reading means for a request that was made `attempt` times before.
pub enum CallView {
    /// The request is done.
    Done(Result<crate::json::JsonView, ClientErrorView>),
    /// Ask again after so many nanoseconds.
    Retry(nat),
}

/// What a reading means for a request.
pub open spec fn after_reading(module: Seq<char>, r: ReadingView, attempt: u32) -> CallView {
    match r {
        ReadingView::Data(d) => CallView::Done(Ok(d)),
        ReadingView::Failed(e) => CallView::Done(Err(e)),
        ReadingView::Busy(code) => if attempt >= MAX_BUSY_RETRIES {
            CallView::Done(Err(ClientErrorView::Busy(module, code, attempt)))
        } else {
            CallView::Retry(busy_millis(attempt) * 1_000_000)
        },
    }
}

/// What a reading means for a request.
pub enum CallStep {
    /// The request is done.
    Done(Result<Json, ZowietekClientError>),
    /// Ask again after a while.
    Retry(Duration),
}

impl CallStep {
    /// The step, its texts as sequences.
    pub open spec fn view(self) -> CallView {
        match self {
            CallStep::Done(Ok(d)) => CallView::Done(Ok(d@)),
            CallStep::Done(Err(e)) => CallView::Done(Err(e@)),
            CallStep::Retry(d) => CallView::Retry(d@),
        }
    }
}

/// Decide on a reading of a request that was made `attempt` times before.
pub fn decide(module: &str, reading: Reading, attempt: u32) -> (r: CallStep)
    ensures
        r@ == after_reading(module@, reading@, attempt),
{
    match reading {
        Reading::Data(d) => CallStep::Done(Ok(d)),
        Reading::Failed(e) => CallStep::Done(Err(e)),
        Reading::Busy(status) => {
            if attempt >= MAX_BUSY_RETRIES {
                CallStep::Done(
                    Err(
                        ZowietekClientError::Busy {
                            module: module.to_owned(),
                            status,
                            retries: attempt,
                        },
                    ),
                )
            } else {
                CallStep::Retry(busy_backoff(attempt))
            }
        },
    }
}

// ---- Requests ----------------------------------------------------------------

/// A session.
#[derive(Debug, PartialEq, Eq)]
pub struct ZowietekSession {
    uuid: String,
}

impl ZowietekSession {
    /// The id of the session.
    pub closed spec fn view(self) -> Seq<char> {
        self.uuid@
    }

    /// The id of the session.
    pub fn uuid(&self) -> (r: &str)
        ensures
            r@ == self@,
    {
        self.uuid.as_str()
    }
}

impl Clone for ZowietekSession {
    fn clone(&self) -> (r: Self)
        ensures
            r == *self,
    {
        ZowietekSession { uuid: self.uuid.clone() }
    }
}

/// What the body of a request says.
pub open spec fn body_view(
    group: Seq<char>,
    opt: Seq<char>,
    data: crate::json::JsonView,
) -> crate::json::JsonView {
    crate::json::JsonView::Object(
        seq![
            ("group"@, crate::json::JsonView::Text(group)),
            ("opt"@, crate::json::JsonView::Text(opt)),
            ("data"@, data),
        ],
    )
}

/// The body of a request.
pub fn request_body(group: &str, opt: &str, data: Json) -> (r: Json)
    ensures
        r@ == body_view(group@, opt@, data@),
{
    let mut fields: Vec<(String, Json)> = Vec::new();
    put(&mut fields, "group", Json::string(group));
    put(&mut fields, "opt", Json::string(opt));
    put(&mut fields, "data", data);
    let r = Json::object(fields);
    assert(r@->Object_0 =~= body_view(group@, opt@, data@)->Object_0);
    r
}

/// The address of a request.
pub fn request_url(base: &str, module: &str, verb: RpcVerb) -> (r: String)
    ensures
        r@ == base@ + "/"@ + module@ + "?option="@ + verb_token(verb) + "&login_check_flag=1"@,
{
    let path = cat3(base, "/", module);
    let query = cat3(path.as_str(), "?option=", verb.query_token());
    cat2(query.as_str(), "&login_check_flag=1")
}

/// What a login says.
pub open spec fn login_view(username: Seq<char>, password: Seq<char>) -> crate::json::JsonView {
    body_view(
        "account"@,
        "login_account"@,
        crate::json::JsonView::Object(
            seq![
                ("username"@, crate::json::JsonView::Text(username)),
                ("password"@, crate::json::JsonView::Text(password)),
            ],
        ),
    )
}

/// The body of a login.
pub fn login_body(username: &str, password: &str) -> (r: Json)
    ensures
        r@ == login_view(username@, password@),
{
    let mut fields: Vec<(String, Json)> = Vec::new();
    put(&mut fields, "username", Json::string(username));
    put(&mut fields, "password", Json::string(password));
    let data = Json::object(fields);
    assert(data@->Object_0 =~= seq![
        ("username"@, crate::json::JsonView::Text(username@)),
        ("password"@, crate::json::JsonView::Text(password@)),
    ]);
    request_body("account", "login_account", data)
}

/// The body of a logout.
pub fn logout_body(session: &ZowietekSession) -> (r: Json)
    ensures
        r@ == body_view(
            "account"@,
            "logout_account"@,
            crate::json::JsonView::Object(
                seq![("uuid"@, crate::json::JsonView::Text(session@))],
            ),
        ),
{
    let mut fields: Vec<(String, Json)> = Vec::new();
    put(&mut fields, "uuid", Json::string(session.uuid.as_str()));
    let data = Json::object(fields);
    assert(data@->Object_0 =~= seq![("uuid"@, crate::json::JsonView::Text(session@))]);
    request_body("account", "logout_account", data)
}

/// The session that a login document opens, or why it does not.
pub open spec fn login_of(document: Result<crate::json::JsonView, Seq<char>>) -> Result<
    Seq<char>,
    ClientErrorView,
> {
    match document {
        Err(detail) => Err(ClientErrorView::Malformed("system"@, detail)),
        Ok(envelope) => match login_envelope(envelope) {
            None => Err(ClientErrorView::Malformed("system"@, bad_envelope())),
            Some((code, uuid)) => if status_number(code) != Some(0nat) {
                Err(status_failure("system"@, code))
            } else {
                match uuid {
                    Some(u) => Ok(u),
                    None => Err(
                        ClientErrorView::Malformed(
                            "system"@,
                            "login succeeded but returned no uuid"@,
                        ),
                    ),
                }
            },
        },
    }
}

/// The session that a login reply opens, or why it does not.
pub open spec fn login_outcome(reply: ReplyView) -> Result<Seq<char>, ClientErrorView> {
    match reply_bytes("system"@, reply) {
        Err(e) => Err(e),
        Ok(None) => Err(ClientErrorView::EmptyBody("system"@)),
        Ok(Some(bytes)) => login_of(crate::json::json_of(bytes)),
    }
}

/// The status and the session id of a login document.
fn open_login(envelope: &Json) -> (r: Option<(String, Option<String>)>)
    ensures
        match r {
            Some(p) => login_envelope(envelope@) == Some((p.0@, crate::text::text_opt(p.1))),
            None => login_envelope(envelope@) is None,
        },
{
    match find_slot(envelope, "status", 0) {
        Some(v) => match v {
            Json::Text(_) => match open_envelope(envelope) {
                Some((code, data)) => match read_uuid(&data) {
                    Some(u) => Some((code, u)),
                    None => None,
                },
                None => None,
            },
            _ => None,
        },
        None => None,
    }
}

/// The session that a login document opens.
pub fn read_login_document(document: Result<Json, String>) -> (r: Result<
    ZowietekSession,
    ZowietekClientError,
>)
    ensures
        ({
            let d = match document {
                Ok(j) => Ok(j@),
                Err(e) => Err(e@),
            };
            match r {
                Ok(s) => login_of(d) == Ok::<Seq<char>, ClientErrorView>(s@),
                Err(e) => login_of(d) == Err::<Seq<char>, ClientErrorView>(e@),
            }
        }),
{
    let envelope = match document {
        Err(detail) => {
            return Err(ZowietekClientError::Malformed { module: "system".to_owned(), detail });
        },
        Ok(j) => j,
    };
    match open_login(&envelope) {
        None => Err(
            ZowietekClientError::Malformed {
                module: "system".to_owned(),
                detail: "not a reply envelope".to_owned(),
            },
        ),
        Some((code, uuid)) => {
            let status = ZowietekStatus::from_code(code.as_str());
            if !status.is_success() {
                return Err(classify_status("system", &status));
            }
            match uuid {
                Some(uuid) => Ok(ZowietekSession { uuid }),
                None => Err(
                    ZowietekClientError::Malformed {
                        module: "system".to_owned(),
                        detail: "login succeeded but returned no uuid".to_owned(),
                    },
                ),
            }
        },
    }
}

/// The session that a login reply opens.
pub fn read_login(reply: Result<TransportResponse, TransportError>) -> (r: Result<
    ZowietekSession,
    ZowietekClientError,
>)
    ensures
        match r {
            Ok(s) => login_outcome(reply_view(reply)) == Ok::<Seq<char>, ClientErrorView>(s@),
            Err(e) => login_outcome(reply_view(reply)) == Err::<Seq<char>, ClientErrorView>(e@),
        },
{
    match raw_reply("system", reply) {
        Err(e) => Err(e),
        Ok(None) => Err(ZowietekClientError::EmptyBody { module: "system".to_owned() }),
        Ok(Some(bytes)) => {
            let document = parse_json(bytes.as_slice());
            read_login_document(document)
        },
    }
}

/// What a document says of a command after which the device restarts.
pub open spec fn forget_of(module: Seq<char>, document: Result<crate::json::JsonView, Seq<char>>) -> Option<ClientErrorView> {
    match reading_of(module, document) {
        ReadingView::Data(_) => None,
        ReadingView::Busy(code) => Some(status_failure(module, code)),
        ReadingView::Failed(e) => Some(e),
    }
}

/// Why a command after which the device restarts failed, where it did. A
/// dropped connection is what such a command leads to.
pub open spec fn forget_outcome(module: Seq<char>, reply: ReplyView) -> Option<ClientErrorView> {
    match reply {
        ReplyView::Dropped => None,
        ReplyView::Body(None) => None,
        ReplyView::Body(Some(bytes)) => forget_of(module, crate::json::json_of(bytes)),
        ReplyView::Failed(message) => Some(ClientErrorView::Transport(message)),
    }
}

/// Read the reply to a command after which the device restarts.
pub fn read_forget(module: &str, reply: Result<TransportResponse, TransportError>) -> (r: Result<
    (),
    ZowietekClientError,
>)
    ensures
        match r {
            Ok(()) => forget_outcome(module@, reply_view(reply)) is None,
            Err(e) => forget_outcome(module@, reply_view(reply)) == Some(e@),
        },
{
    match reply {
        Ok(TransportResponse::Dropped) => Ok(()),
        Ok(TransportResponse::Body(None)) => Ok(()),
        Ok(TransportResponse::Body(Some(bytes))) => {
            let document = parse_json(bytes.as_slice());
            match read_document(module, document) {
                Reading::Data(_) => Ok(()),
                Reading::Busy(code) => {
                    let status = ZowietekStatus::from_code(code.as_str());
                    Err(classify_status(module, &status))
                },
                Reading::Failed(e) => Err(e),
            }
        },
        Err(e) => Err(ZowietekClientError::Transport(e)),
    }
}

// ---- Where to dial -----------------------------------------------------------

/// The kind of host that an address names.
#[derive(Debug, Clone, Copy, PartialEq, Eq, Structural)]
pub enum HostKind {
    /// An IPv4 address, in whichever notation it was given.
    Ipv4,
    /// An IPv6 address.
    Ipv6,
    /// A name.
    Domain,
}

/// The host of an address, or why the address is none.
pub uninterp spec fn url_host_of(address: Seq<char>) -> Result<
    Option<(HostKind, Seq<char>)>,
    Seq<char>,
>;

/// `url::Url::parse` and `url::Url::host`: the host of an address in its
/// canonical form, none where it has none, or the parser's complaint.
#[verifier::external_body]
pub(crate) fn url_host(address: &str) -> (r: Result<Option<(HostKind, String)>, String>)
    ensures
        match r {
            Ok(Some(h)) => url_host_of(address@) == Ok::<
                Option<(HostKind, Seq<char>)>,
                Seq<char>,
            >(Some((h.0, h.1@))),
            Ok(None) => url_host_of(address@) == Ok::<Option<(HostKind, Seq<char>)>, Seq<char>>(
                None,
            ),
            Err(e) => url_host_of(address@) == Err::<Option<(HostKind, Seq<char>)>, Seq<char>>(e@),
        },
{
    match url::Url::parse(address) {
        Ok(parsed) => Ok(parsed.host().map(|h| match h {
            url::Host::Ipv4(v4) => (HostKind::Ipv4, v4.to_string()),
            url::Host::Ipv6(v6) => (HostKind::Ipv6, v6.to_string()),
            url::Host::Domain(name) => (HostKind::Domain, name.to_owned()),
        })),
        Err(e) => Err(e.to_string()),
    }
}

/// An address has a scheme.
pub open spec fn has_scheme(s: Seq<char>) -> bool {
    exists|i: int| scheme_at(s, i)
}

/// The end of a scheme stands at `i`.
pub open spec fn scheme_at(s: Seq<char>, i: int) -> bool {
    0 <= i && i + 2 < s.len() && s[i] == ':' && s[i + 1] == '/' && s[i + 2] == '/'
}

/// The address of a device: with a scheme, and without slashes at its end.
pub open spec fn normalized(base: Seq<char>) -> Seq<char> {
    let trimmed = crate::text::trim_end_of(base, CharClass::Only('/'));
    if has_scheme(base) {
        trimmed
    } else {
        "http://"@ + trimmed
    }
}

/// Whether an address has a scheme.
fn find_scheme(s: &str) -> (r: bool)
    ensures
        r == has_scheme(s@),
{
    let v = crate::text::chars_of(s);
    let mut i: usize = 0;
    while i < v.len()
        invariant
            v@ == s@,
            i <= v.len(),
            forall|j: int| 0 <= j < i ==> !#[trigger] scheme_at(s@, j),
        decreases v.len() - i,
    {
        if v.len() - i > 2 && v[i] == ':' && v[i + 1] == '/' && v[i + 2] == '/' {
            assert(scheme_at(s@, i as int));
            return true;
        }
        i += 1;
    }
    false
}

/// The address of a device: with a scheme, and without slashes at its end.
pub fn normalize_base(base: &str) -> (r: String)
    ensures
        r@ == normalized(base@),
{
    let trimmed = trim_end(base, CharClass::Only('/'));
    if find_scheme(base) {
        trimmed.to_owned()
    } else {
        cat2("http://", trimmed)
    }
}

/// What is to be dialled for a parsed address, or why nothing is.
pub open spec fn target_of(
    base: Seq<char>,
    parsed: Result<Option<(HostKind, Seq<char>)>, Seq<char>>,
) -> Result<(HostKind, Seq<char>), Seq<char>> {
    match parsed {
        Ok(Some(h)) => Ok(h),
        Ok(None) => Err(
            "device url "@ + crate::text::debug_of(base) + " has no host to dial"@,
        ),
        Err(e) => Err("invalid device url "@ + crate::text::debug_of(base) + ": "@ + e),
    }
}

/// What is to be dialled for a parsed address.
pub fn dial_target(base: &str, parsed: Result<Option<(HostKind, String)>, String>) -> (r: Result<
    (HostKind, String),
    TransportError,
>)
    ensures
        ({
            let p = match parsed {
                Ok(Some(h)) => Ok(Some((h.0, h.1@))),
                Ok(None) => Ok(None),
                Err(e) => Err(e@),
            };
            match r {
                Ok(h) => target_of(base@, p) == Ok::<(HostKind, Seq<char>), Seq<char>>(
                    (h.0, h.1@),
                ),
                Err(e) => target_of(base@, p) == Err::<(HostKind, Seq<char>), Seq<char>>(
                    e.message@,
                ),
            }
        }),
{
    match parsed {
        Ok(Some(h)) => Ok(h),
        Ok(None) => {
            let q = debug_text(base);
            Err(TransportError { message: cat3("device url ", q.as_str(), " has no host to dial") })
        },
        Err(e) => {
            let q = debug_text(base);
            let head = cat3("invalid device url ", q.as_str(), ": ");
            Err(TransportError { message: cat2(head.as_str(), e.as_str()) })
        },
    }
}

/// What is to be dialled for the address of a device. An address literal is
/// dialled as it is, and has to be screened before.
pub fn screen_target(base: &str) -> (r: Result<(HostKind, String), TransportError>)
    ensures
        match r {
            Ok(h) => target_of(base@, url_host_of(normalized(base@))) == Ok::<
                (HostKind, Seq<char>),
                Seq<char>,
            >((h.0, h.1@)),
            Err(e) => target_of(base@, url_host_of(normalized(base@))) == Err::<
                (HostKind, Seq<char>),
                Seq<char>,
            >(e.message@),
        },
{
    let address = normalize_base(base);
    dial_target(base, url_host(address.as_str()))
}

// ---- Laws --------------------------------------------------------------------

/// A busy device is asked again at most so often, and every wait is at most
/// four seconds and at least as long as the one before.
pub proof fn law_patience_is_bounded(module: Seq<char>, code: Seq<char>, attempt: u32)
    ensures
        after_reading(module, ReadingView::Busy(code), attempt) is Retry <==> attempt
            < MAX_BUSY_RETRIES,
        busy_millis(attempt) <= 4_000,
        attempt < u32::MAX ==> busy_millis(attempt) <= busy_millis((attempt + 1) as u32),
{
}

/// Only a status whose number is zero is a success; the text beside it does not
/// matter.
pub proof fn law_success_goes_by_the_number(
    module: Seq<char>,
    envelope: crate::json::JsonView,
)
    ensures
        reading_of(module, Ok(envelope)) is Data <==> {
            &&& rpc_envelope(envelope) matches Some((code, _))
            &&& status_number(code) == Some(0nat)
        },
{
}

/// A dropped connection is a failure of a request, and none of a command after
/// which the device restarts.
pub proof fn law_restart_may_drop_the_connection(module: Seq<char>)
    ensures
        reading(module, ReplyView::Dropped) == ReadingView::Failed(
            ClientErrorView::Unreachable(module),
        ),
        forget_outcome(module, ReplyView::Dropped) is None,
{
}

/// An empty body is an error of its own, never a success.
pub proof fn law_empty_body_is_an_error(module: Seq<char>)
    ensures
        reading(module, ReplyView::Body(None)) == ReadingView::Failed(
            ClientErrorView::EmptyBody(module),
        ),
        reading(module, ReplyView::Body(Some(Seq::empty()))) == ReadingView::Failed(
            ClientErrorView::EmptyBody(module),
        ),
{
}

/// What a reply means goes by the number in it: nought is success and hands the data
/// over, nine and ten ask for patience, four says that the mode does not support what
/// was asked, and every other number is an error of the device.
pub proof fn law_numbers_say_what_a_reply_means(
    module: Seq<char>,
    envelope: crate::json::JsonView,
    n: u32,
)
    requires
        envelope is Object,
        envelope.field("status"@) == Some(
            crate::json::JsonView::Text(crate::text::decimal(n as nat)),
        ),
    ensures
        ({
            let code = crate::text::decimal(n as nat);
            let r = reading_of(module, Ok(envelope));
            &&& n == 0 ==> r == ReadingView::Data(
                match envelope.field("data"@) {
                    Some(d) => d,
                    None => crate::json::JsonView::Null,
                },
            )
            &&& n == 9 || n == 10 ==> r == ReadingView::Busy(code)
            &&& n == 4 ==> r == ReadingView::Failed(
                ClientErrorView::Status(module, code, "workmode-unsupported"@),
            )
            &&& n != 0 && n != 4 && n != 9 && n != 10 ==> r == ReadingView::Failed(
                ClientErrorView::Status(module, code, "device-error"@),
            )
            &&& auth_number(status_number(code)) <==> n == 2 || n == 3
        }),
{
    let code = crate::text::decimal(n as nat);
    lemma_number_is_read(n);
    assert(rpc_envelope(envelope) is Some);
}

/// The decimal notation of a status is read as its number.
proof fn lemma_number_is_read(n: u32)
    ensures
        status_number(crate::text::decimal(n as nat)) == Some(n as nat),
{
    let code = crate::text::decimal(n as nat);
    crate::text::lemma_decimal(n as nat);
    assert(crate::text::is_digit(code[0]));
    assert(crate::text::is_digit(code.last()));
    crate::text::lemma_trim_keeps(code, CharClass::White);
    crate::text::lemma_decimal_read(n as nat, u32::MAX as nat);
}

/// A busy device is asked again after a quarter of a second, and each wait is twice
/// the one before, up to four seconds. The fifth busy answer is reported with the
/// number of retries.
pub proof fn law_waits_double(module: Seq<char>, code: Seq<char>, attempt: u32)
    ensures
        busy_millis(0) == 250,
        attempt < 4 ==> busy_millis((attempt + 1) as u32) == 2 * busy_millis(attempt),
        attempt >= 4 ==> busy_millis(attempt) == 4_000,
        attempt < 4 ==> after_reading(module, ReadingView::Busy(code), attempt) == CallView::Retry(
            busy_millis(attempt) * 1_000_000,
        ),
        attempt >= 4 ==> after_reading(module, ReadingView::Busy(code), attempt) == CallView::Done(
            Err(ClientErrorView::Busy(module, code, attempt)),
        ),
{
}

/// What is not busy is final: data and failures are handed on as they are, whatever
/// the attempt.
pub proof fn law_other_readings_are_final(
    module: Seq<char>,
    data: crate::json::JsonView,
    e: ClientErrorView,
    attempt: u32,
)
    ensures
        after_reading(module, ReadingView::Data(data), attempt) == CallView::Done(Ok(data)),
        after_reading(module, ReadingView::Failed(e), attempt) == CallView::Done(Err(e)),
{
}

/// A login that succeeds is the session that the device names; one that names none,
/// and one that is refused, is an error of the login.
pub proof fn law_login_is_the_session_named(
    envelope: crate::json::JsonView,
    data: crate::json::JsonView,
    uuid: Seq<char>,
    n: u32,
)
    requires
        envelope is Object,
        envelope.field("status"@) == Some(
            crate::json::JsonView::Text(crate::text::decimal(n as nat)),
        ),
        envelope.field("data"@) == Some(data),
        data is Object,
    ensures
        n == 0 && data.field("uuid"@) == Some(crate::json::JsonView::Text(uuid)) ==> login_of(
            Ok(envelope),
        ) == Ok::<Seq<char>, ClientErrorView>(uuid),
        n == 0 && data.field("uuid"@) is None ==> login_of(Ok(envelope)) == Err::<
            Seq<char>,
            ClientErrorView,
        >(ClientErrorView::Malformed("system"@, "login succeeded but returned no uuid"@)),
        n != 0 && n != 4 && (data.field("uuid"@) is None || data.field("uuid"@) == Some(
            crate::json::JsonView::Text(uuid),
        )) ==> login_of(Ok(envelope)) == Err::<Seq<char>, ClientErrorView>(
            ClientErrorView::Status("system"@, crate::text::decimal(n as nat), "device-error"@),
        ),
{
    lemma_number_is_read(n);
}

/// A request says which group and operation it is for, and carries its data.
pub proof fn law_request_says_what_it_is_for(
    group: Seq<char>,
    opt: Seq<char>,
    data: crate::json::JsonView,
    username: Seq<char>,
    password: Seq<char>,
)
    ensures
        body_view(group, opt, data).text_field("group"@) == Some(group),
        body_view(group, opt, data).text_field("opt"@) == Some(opt),
        body_view(group, opt, data).field("data"@) == Some(data),
        login_view(username, password).text_field("group"@) == Some("account"@),
        login_view(username, password).text_field("opt"@) == Some("login_account"@),
        login_view(username, password).field("data"@) matches Some(d) && d.text_field("username"@)
            == Some(username) && d.text_field("password"@) == Some(password),
{
    reveal_strlit("group");
    reveal_strlit("opt");
    reveal_strlit("data");
    reveal_strlit("username");
    reveal_strlit("password");
    assert("group"@.len() == 5 && "opt"@.len() == 3 && "data"@.len() == 4);
    assert("username"@[0] == 'u' && "password"@[0] == 'p');
    reveal_with_fuel(crate::json::field_of, 5);
}

/// A base address gets a scheme where it has none and loses its trailing slashes.
pub proof fn law_base_address_is_completed(host: Seq<char>)
    requires
        host.len() > 0,
        host.last() != '/',
    ensures
        !has_scheme(host) ==> normalized(host) == "http://"@ + host,
        has_scheme(host) ==> normalized(host) == host,
        has_scheme(host) ==> normalized(host + "/"@) == host,
        has_scheme(host) ==> normalized(host + "//"@) == host,
{
    reveal_strlit("/");
    reveal_strlit("//");
    let slash = CharClass::Only('/');
    assert(crate::text::trim_end_of(host, slash) == host);
    let one = host + "/"@;
    let two = host + "//"@;
    assert(one.last() == '/' && one.drop_last() =~= host);
    assert(crate::text::trim_end_of(one, slash) == crate::text::trim_end_of(one.drop_last(), slash));
    assert(two.last() == '/' && two.drop_last() =~= one);
    assert(crate::text::trim_end_of(two, slash) == crate::text::trim_end_of(two.drop_last(), slash));
    if has_scheme(host) {
        let i = choose|i: int| scheme_at(host, i);
        assert(scheme_at(one, i));
        assert(scheme_at(two, i));
    }
}

/// A device that cannot be dialled is refused with its address, and one that can is
/// dialled at the host that its address names.
pub proof fn law_target_is_the_host(
    base: Seq<char>,
    host: (HostKind, Seq<char>),
    e: Seq<char>,
)
    ensures
        target_of(base, Ok(Some(host))) == Ok::<(HostKind, Seq<char>), Seq<char>>(host),
        target_of(base, Ok(None)) == Err::<(HostKind, Seq<char>), Seq<char>>(
            "device url "@ + crate::text::debug_of(base) + " has no host to dial"@,
        ),
        target_of(base, Err(e)) == Err::<(HostKind, Seq<char>), Seq<char>>(
            "invalid device url "@ + crate::text::debug_of(base) + ": "@ + e,
        ),
{
}

/// A reply is told apart by how it came: bytes are read, no bytes are an empty body,
/// a dropped connection is a device out of reach, and a fault of the transport is
/// reported with its message.
pub proof fn law_replies_are_told_apart(module: Seq<char>, bytes: Seq<u8>, message: Seq<char>)
    ensures
        bytes.len() > 0 ==> reading(module, ReplyView::Body(Some(bytes))) == reading_of(
            module,
            crate::json::json_of(bytes),
        ),
        reading(module, ReplyView::Body(Some(Seq::empty()))) == ReadingView::Failed(
            ClientErrorView::EmptyBody(module),
        ),
        reading(module, ReplyView::Body(None)) == ReadingView::Failed(
            ClientErrorView::EmptyBody(module),
        ),
        reading(module, ReplyView::Dropped) == ReadingView::Failed(
            ClientErrorView::Unreachable(module),
        ),
        reading(module, ReplyView::Failed(message)) == ReadingView::Failed(
            ClientErrorView::Transport(message),
        ),
        forget_outcome(module, ReplyView::Failed(message)) == Some(
            ClientErrorView::Transport(message),
        ),
{
}

/// An address has a scheme where two slashes stand behind a colon.
pub proof fn law_scheme_is_recognised(front: Seq<char>, rest: Seq<char>)
    ensures
        has_scheme(front + "://"@ + rest),
        !rest.contains(':') ==> !has_scheme(rest),
        !rest.contains('/') ==> !has_scheme(rest),
{
    reveal_strlit("://");
    let s = front + "://"@ + rest;
    assert(scheme_at(s, front.len() as int));
    if has_scheme(rest) {
        let i = choose|i: int| scheme_at(rest, i);
        assert(rest[i] == ':');
        assert(rest[i + 1] == '/');
        assert(rest.contains(rest[i]));
        assert(rest.contains(rest[i + 1]));
    }
}

/// A failure is described by what was asked and by what went wrong with it.
pub proof fn law_failures_are_described(
    module: Seq<char>,
    code: Seq<char>,
    detail: Seq<char>,
    n: u32,
    field: u64,
)
    ensures
        client_error_text(ClientErrorView::EmptyBody(module)) == "device "@ + crate::text::debug_of(
            module,
        ) + " returned an empty body (group/opt does not fit the workmode)"@,
        client_error_text(ClientErrorView::Malformed(module, detail)) == "device "@
            + crate::text::debug_of(module) + " returned a malformed response: "@ + detail,
        client_error_text(ClientErrorView::Status(module, code, detail)) == "device "@
            + crate::text::debug_of(module) + " returned status "@ + crate::text::debug_of(code)
            + " ("@ + detail + ")"@,
        client_error_text(ClientErrorView::Busy(module, code, n)) == "device "@
            + crate::text::debug_of(module) + " stayed busy ("@ + crate::text::debug_of(code)
            + ") across "@ + crate::text::decimal(n as nat) + " retries"@,
        client_error_text(ClientErrorView::Unreachable(module)) == "device "@
            + crate::text::debug_of(module)
            + " dropped the connection with no response (unreachable/rebooting)"@,
        client_error_text(ClientErrorView::Transport(detail)) == "zowietek transport error: "@
            + detail,
        client_error_text(ClientErrorView::ImplausibleBitrate(field))
            == "implausible bitrate field "@ + crate::text::decimal(field as nat)
            + " (too small for bits/sec; kbps-shaped?)"@,
{
}

/// The verbs go by their names in a request.
pub proof fn law_verbs_are_named(v: RpcVerb)
    ensures
        v == RpcVerb::GetInfo ==> verb_token(v) == "getinfo"@,
        v == RpcVerb::SetInfo ==> verb_token(v) == "setinfo"@,
{
}

} // verus!
