//! The messages of the Cast protocol, above the wire.
//!
//! A message belongs to a namespace and carries a JSON payload. What a
//! receiver sends and this driver does not know is tolerated.

use vstd::prelude::*;

use crate::devices::cast::media::CastMediaTarget;
use crate::json::{json_text, parse_json, put, Json};
use crate::text::{decimal_text, str_eq};

verus! {

/// The namespace in which conversations are opened and closed.
pub const NS_CONNECTION: &'static str = "urn:x-cast:com.google.cast.tp.connection";

/// The namespace of the heartbeat.
pub const NS_HEARTBEAT: &'static str = "urn:x-cast:com.google.cast.tp.heartbeat";

/// The namespace of the platform receiver.
pub const NS_RECEIVER: &'static str = "urn:x-cast:com.google.cast.receiver";

/// The namespace of the media that an app plays.
pub const NS_MEDIA: &'static str = "urn:x-cast:com.google.cast.media";

/// The app that this driver launches.
pub const DEFAULT_MEDIA_RECEIVER_APP_ID: &'static str = "CC1AD845";

/// Our id on the channel.
pub const SENDER_ID: &'static str = "sender-0";

/// The id of the platform receiver.
pub const PLATFORM_RECEIVER_ID: &'static str = "receiver-0";

/// The content type of a rendition.
pub const HLS_CONTENT_TYPE: &'static str = "application/vnd.apple.mpegurl";

/// One message.
#[derive(Debug, PartialEq, Eq)]
pub struct CastFrame {
    /// The namespace.
    pub namespace: String,
    /// Who sends it.
    pub source: String,
    /// Who is to get it.
    pub destination: String,
    /// The JSON payload.
    pub payload: String,
}

/// One message, its texts as sequences.
pub struct FrameView {
    /// The namespace.
    pub namespace: Seq<char>,
    /// Who sends it.
    pub source: Seq<char>,
    /// Who is to get it.
    pub destination: Seq<char>,
    /// The JSON payload.
    pub payload: Seq<char>,
}

impl CastFrame {
    /// The message, its texts as sequences.
    pub open spec fn view(self) -> FrameView {
        FrameView {
            namespace: self.namespace@,
            source: self.source@,
            destination: self.destination@,
            payload: self.payload@,
        }
    }
}

impl Clone for CastFrame {
    fn clone(&self) -> (r: Self)
        ensures
            r == *self,
    {
        CastFrame {
            namespace: self.namespace.clone(),
            source: self.source.clone(),
            destination: self.destination.clone(),
            payload: self.payload.clone(),
        }
    }
}

// ---- What we send ------------------------------------------------------------

/// A message of ours.
pub open spec fn framed(
    namespace: Seq<char>,
    destination: Seq<char>,
    payload: crate::json::JsonView,
) -> FrameView {
    FrameView {
        namespace,
        source: SENDER_ID@,
        destination,
        payload: crate::json::json_text_of(payload),
    }
}

/// A payload that has only a type.
pub open spec fn typed(kind: Seq<char>) -> crate::json::JsonView {
    crate::json::JsonView::Object(seq![("type"@, crate::json::JsonView::Text(kind))])
}

/// A payload that has a type and a request id.
pub open spec fn request(kind: Seq<char>, request_id: u32) -> Seq<
    (Seq<char>, crate::json::JsonView),
> {
    seq![
        ("type"@, crate::json::JsonView::Text(kind)),
        ("requestId"@, crate::json::JsonView::Unsigned(request_id as u64)),
    ]
}

/// Open a conversation.
pub open spec fn connect_view(destination: Seq<char>) -> FrameView {
    framed(NS_CONNECTION@, destination, typed("CONNECT"@))
}

/// Close a conversation.
pub open spec fn close_view(destination: Seq<char>) -> FrameView {
    framed(NS_CONNECTION@, destination, typed("CLOSE"@))
}

/// Ask for a sign of life.
pub open spec fn ping_view() -> FrameView {
    framed(NS_HEARTBEAT@, PLATFORM_RECEIVER_ID@, typed("PING"@))
}

/// Give a sign of life.
pub open spec fn pong_view() -> FrameView {
    framed(NS_HEARTBEAT@, PLATFORM_RECEIVER_ID@, typed("PONG"@))
}

/// Launch an app.
pub open spec fn launch_view(request_id: u32, app_id: Seq<char>) -> FrameView {
    framed(
        NS_RECEIVER@,
        PLATFORM_RECEIVER_ID@,
        crate::json::JsonView::Object(
            request("LAUNCH"@, request_id).push(("appId"@, crate::json::JsonView::Text(app_id))),
        ),
    )
}

/// Ask what runs.
pub open spec fn get_status_view(request_id: u32) -> FrameView {
    framed(
        NS_RECEIVER@,
        PLATFORM_RECEIVER_ID@,
        crate::json::JsonView::Object(request("GET_STATUS"@, request_id)),
    )
}

/// What the app is to play.
pub open spec fn media_object(media: CastMediaTarget) -> crate::json::JsonView {
    crate::json::JsonView::Object(
        seq![
            ("contentId"@, crate::json::JsonView::Text(media.url@)),
            ("contentType"@, crate::json::JsonView::Text(HLS_CONTENT_TYPE@)),
            ("streamType"@, crate::json::JsonView::Text("LIVE"@)),
            (
                "hlsVideoSegmentFormat"@,
                crate::json::JsonView::Text(crate::devices::cast::media::format_token(media.format)),
            ),
        ],
    )
}

/// Play a rendition.
pub open spec fn load_view(
    request_id: u32,
    transport_id: Seq<char>,
    media: CastMediaTarget,
) -> FrameView {
    framed(
        NS_MEDIA@,
        transport_id,
        crate::json::JsonView::Object(
            request("LOAD"@, request_id).push(
                ("autoplay"@, crate::json::JsonView::Bool(true)),
            ).push(("media"@, media_object(media))),
        ),
    )
}

/// A percentage as the protocol's level between zero and one.
pub open spec fn level_text(percent: u8) -> Seq<char> {
    let p: nat = if percent >= 100 {
        100
    } else {
        percent as nat
    };
    if p == 100 {
        "1.0"@
    } else if p < 10 && p > 0 {
        "0.0"@ + crate::text::decimal(p)
    } else if p % 10 == 0 {
        "0."@ + crate::text::decimal(p / 10)
    } else {
        "0."@ + crate::text::decimal(p)
    }
}

/// Set the volume.
pub open spec fn set_volume_view(request_id: u32, percent: u8) -> FrameView {
    framed(
        NS_RECEIVER@,
        PLATFORM_RECEIVER_ID@,
        crate::json::JsonView::Object(
            request("SET_VOLUME"@, request_id).push(
                (
                    "volume"@,
                    crate::json::JsonView::Object(
                        seq![("level"@, crate::json::JsonView::Number(level_text(percent)))],
                    ),
                ),
            ),
        ),
    )
}

/// Stop an app.
pub open spec fn stop_view(request_id: u32, session_id: Seq<char>) -> FrameView {
    framed(
        NS_RECEIVER@,
        PLATFORM_RECEIVER_ID@,
        crate::json::JsonView::Object(
            request("STOP"@, request_id).push(
                ("sessionId"@, crate::json::JsonView::Text(session_id)),
            ),
        ),
    )
}

fn frame(namespace: &str, destination: &str, payload: &Json) -> (r: CastFrame)
    ensures
        r@ == framed(namespace@, destination@, payload@),
{
    CastFrame {
        namespace: namespace.to_owned(),
        source: SENDER_ID.to_owned(),
        destination: destination.to_owned(),
        payload: json_text(payload),
    }
}

fn typed_payload(kind: &str) -> (r: Json)
    ensures
        r@ == typed(kind@),
{
    let mut fields: Vec<(String, Json)> = Vec::new();
    put(&mut fields, "type", Json::string(kind));
    let r = Json::object(fields);
    assert(r@->Object_0 =~= typed(kind@)->Object_0);
    r
}

fn request_fields(kind: &str, request_id: u32) -> (r: Vec<(String, Json)>)
    ensures
        crate::json::fields_view(r@) == request(kind@, request_id),
{
    let mut fields: Vec<(String, Json)> = Vec::new();
    put(&mut fields, "type", Json::string(kind));
    put(&mut fields, "requestId", Json::Unsigned(request_id as u64));
    assert(crate::json::fields_view(fields@) =~= request(kind@, request_id));
    fields
}

/// Open a conversation with `destination`.
pub fn connect_frame(destination: &str) -> (r: CastFrame)
    ensures
        r@ == connect_view(destination@),
{
    frame(NS_CONNECTION, destination, &typed_payload("CONNECT"))
}

/// Close the conversation with `destination`.
pub fn close_frame(destination: &str) -> (r: CastFrame)
    ensures
        r@ == close_view(destination@),
{
    frame(NS_CONNECTION, destination, &typed_payload("CLOSE"))
}

/// Ask for a sign of life.
pub fn ping_frame() -> (r: CastFrame)
    ensures
        r@ == ping_view(),
{
    frame(NS_HEARTBEAT, PLATFORM_RECEIVER_ID, &typed_payload("PING"))
}

/// Give a sign of life.
pub fn pong_frame() -> (r: CastFrame)
    ensures
        r@ == pong_view(),
{
    frame(NS_HEARTBEAT, PLATFORM_RECEIVER_ID, &typed_payload("PONG"))
}

/// Launch an app.
pub fn launch_frame(request_id: u32, app_id: &str) -> (r: CastFrame)
    ensures
        r@ == launch_view(request_id, app_id@),
{
    let mut fields = request_fields("LAUNCH", request_id);
    put(&mut fields, "appId", Json::string(app_id));
    frame(NS_RECEIVER, PLATFORM_RECEIVER_ID, &Json::object(fields))
}

/// Ask what runs.
pub fn get_status_frame(request_id: u32) -> (r: CastFrame)
    ensures
        r@ == get_status_view(request_id),
{
    let fields = request_fields("GET_STATUS", request_id);
    frame(NS_RECEIVER, PLATFORM_RECEIVER_ID, &Json::object(fields))
}

/// Play a rendition on the app at `transport_id`.
pub fn load_frame(request_id: u32, transport_id: &str, media: &CastMediaTarget) -> (r: CastFrame)
    ensures
        r@ == load_view(request_id, transport_id@, *media),
{
    let mut what: Vec<(String, Json)> = Vec::new();
    put(&mut what, "contentId", Json::string(media.url.as_str()));
    put(&mut what, "contentType", Json::string(HLS_CONTENT_TYPE));
    put(&mut what, "streamType", Json::string("LIVE"));
    put(&mut what, "hlsVideoSegmentFormat", Json::string(media.format.wire_token()));
    let object = Json::object(what);
    assert(object@->Object_0 =~= media_object(*media)->Object_0);
    let mut fields = request_fields("LOAD", request_id);
    put(&mut fields, "autoplay", Json::Bool(true));
    put(&mut fields, "media", object);
    frame(NS_MEDIA, transport_id, &Json::object(fields))
}

/// Set the volume, in percent.
pub fn set_volume_frame(request_id: u32, percent: u8) -> (r: CastFrame)
    ensures
        r@ == set_volume_view(request_id, percent),
{
    let level = level_number(percent);
    let mut volume: Vec<(String, Json)> = Vec::new();
    put(&mut volume, "level", Json::Number(level));
    let object = Json::object(volume);
    assert(object@->Object_0 =~= seq![
        ("level"@, crate::json::JsonView::Number(level_text(percent))),
    ]);
    let mut fields = request_fields("SET_VOLUME", request_id);
    put(&mut fields, "volume", object);
    frame(NS_RECEIVER, PLATFORM_RECEIVER_ID, &Json::object(fields))
}

/// A percentage as the protocol's level.
fn level_number(percent: u8) -> (r: String)
    ensures
        r@ == level_text(percent),
{
    let p: u64 = if percent >= 100 {
        100
    } else {
        percent as u64
    };
    if p == 100 {
        return "1.0".to_owned();
    }
    if p < 10 && p > 0 {
        let d = decimal_text(p);
        return "0.0".to_owned().concat(d.as_str());
    }
    let d = if p % 10 == 0 {
        decimal_text(p / 10)
    } else {
        decimal_text(p)
    };
    "0.".to_owned().concat(d.as_str())
}

/// Stop the app that runs as `session_id`.
pub fn stop_frame(request_id: u32, session_id: &str) -> (r: CastFrame)
    ensures
        r@ == stop_view(request_id, session_id@),
{
    let mut fields = request_fields("STOP", request_id);
    put(&mut fields, "sessionId", Json::string(session_id));
    frame(NS_RECEIVER, PLATFORM_RECEIVER_ID, &Json::object(fields))
}

// ---- What we get -------------------------------------------------------------

/// An app that runs on a receiver.
#[derive(Debug, PartialEq, Eq)]
pub struct ReceiverApplication {
    /// The app.
    pub app_id: String,
    /// The session as which it runs.
    pub session_id: String,
    /// Where its media messages go.
    pub transport_id: String,
    /// Whether it is the receiver's own idle screen.
    pub is_idle_screen: bool,
}

/// An app, its texts as sequences.
pub struct ApplicationView {
    /// The app.
    pub app_id: Seq<char>,
    /// The session as which it runs.
    pub session_id: Seq<char>,
    /// Where its media messages go.
    pub transport_id: Seq<char>,
    /// Whether it is the receiver's own idle screen.
    pub is_idle_screen: bool,
}

impl ReceiverApplication {
    /// The app, its texts as sequences.
    pub open spec fn view(self) -> ApplicationView {
        ApplicationView {
            app_id: self.app_id@,
            session_id: self.session_id@,
            transport_id: self.transport_id@,
            is_idle_screen: self.is_idle_screen,
        }
    }
}

/// What runs on a receiver.
#[derive(Debug, PartialEq, Eq)]
pub struct ReceiverStatusInfo {
    /// The apps.
    pub applications: Vec<ReceiverApplication>,
}

/// What a player does.
#[derive(Debug, Clone, Copy, PartialEq, Eq, Structural)]
pub enum PlayerState {
    /// It plays.
    Playing,
    /// It fills its buffer.
    Buffering,
    /// It was paused.
    Paused,
    /// It has nothing to play.
    Idle,
}

/// The published name of what a player does.
pub open spec fn player_token(p: PlayerState) -> Seq<char> {
    match p {
        PlayerState::Playing => "playing"@,
        PlayerState::Buffering => "buffering"@,
        PlayerState::Paused => "paused"@,
        PlayerState::Idle => "idle"@,
    }
}

impl PlayerState {
    /// The published name.
    pub fn mode_token(self) -> (r: &'static str)
        ensures
            r@ == player_token(self),
    {
        match self {
            PlayerState::Playing => "playing",
            PlayerState::Buffering => "buffering",
            PlayerState::Paused => "paused",
            PlayerState::Idle => "idle",
        }
    }
}

/// One media session that a receiver reports.
#[derive(Debug, PartialEq, Eq)]
pub struct MediaStatusEntry {
    /// Its id.
    pub media_session_id: Option<i64>,
    /// What its player does.
    pub player_state: PlayerState,
    /// Why it has nothing to play.
    pub idle_reason: Option<String>,
}

/// One media session, its text as a sequence.
pub struct MediaEntryView {
    /// Its id.
    pub media_session_id: Option<i64>,
    /// What its player does.
    pub player_state: PlayerState,
    /// Why it has nothing to play.
    pub idle_reason: Option<Seq<char>>,
}

impl MediaStatusEntry {
    /// The media session, its text as a sequence.
    pub open spec fn view(self) -> MediaEntryView {
        MediaEntryView {
            media_session_id: self.media_session_id,
            player_state: self.player_state,
            idle_reason: crate::text::text_opt(self.idle_reason),
        }
    }
}

/// What a receiver sent.
#[derive(Debug, PartialEq, Eq)]
#[allow(inconsistent_fields)]
pub enum InboundMessage {
    /// A sign of life.
    Pong,
    /// It asks for a sign of life.
    Ping,
    /// It closed the conversation.
    CloseConnection,
    /// What runs on it.
    ReceiverStatus(ReceiverStatusInfo),
    /// The media sessions on it.
    MediaStatus(Vec<MediaStatusEntry>),
    /// It refused to launch.
    LaunchError {
        /// Why.
        reason: Option<String>,
    },
    /// It refused to play.
    LoadError {
        /// The kind of refusal.
        kind: String,
        /// Why.
        reason: Option<String>,
    },
    /// Anything else.
    Unknown,
}

/// What a receiver sent, its texts as sequences.
pub enum InboundView {
    /// A sign of life.
    Pong,
    /// It asks for a sign of life.
    Ping,
    /// It closed the conversation.
    CloseConnection,
    /// What runs on it.
    ReceiverStatus(Seq<ApplicationView>),
    /// The media sessions on it.
    MediaStatus(Seq<MediaEntryView>),
    /// It refused to launch.
    LaunchError(Option<Seq<char>>),
    /// It refused to play: the kind of refusal, and why.
    LoadError(Seq<char>, Option<Seq<char>>),
    /// Anything else.
    Unknown,
}

/// The apps, their texts as sequences.
pub open spec fn app_views(apps: Seq<ReceiverApplication>) -> Seq<ApplicationView> {
    apps.map_values(|a: ReceiverApplication| a@)
}

/// The media sessions, their texts as sequences.
pub open spec fn entry_views(entries: Seq<MediaStatusEntry>) -> Seq<MediaEntryView> {
    entries.map_values(|e: MediaStatusEntry| e@)
}

impl InboundMessage {
    /// The message, its texts as sequences.
    pub open spec fn view(self) -> InboundView {
        match self {
            InboundMessage::Pong => InboundView::Pong,
            InboundMessage::Ping => InboundView::Ping,
            InboundMessage::CloseConnection => InboundView::CloseConnection,
            InboundMessage::ReceiverStatus(s) => InboundView::ReceiverStatus(
                app_views(s.applications@),
            ),
            InboundMessage::MediaStatus(entries) => InboundView::MediaStatus(entry_views(entries@)),
            InboundMessage::LaunchError { reason } => InboundView::LaunchError(
                crate::text::text_opt(reason),
            ),
            InboundMessage::LoadError { kind, reason } => InboundView::LoadError(
                kind@,
                crate::text::text_opt(reason),
            ),
            InboundMessage::Unknown => InboundView::Unknown,
        }
    }
}

/// An app as a receiver writes it: an object with the three ids, and a flag
/// that may be missing; or the same four as an array.
pub open spec fn app_of(row: crate::json::JsonView) -> Option<ApplicationView> {
    match row {
        crate::json::JsonView::Object(_) => match (
            row.text_field("appId"@),
            row.text_field("sessionId"@),
            row.text_field("transportId"@),
        ) {
            (Some(app_id), Some(session_id), Some(transport_id)) => match row.field(
                "isIdleScreen"@,
            ) {
                None => Some(
                    ApplicationView { app_id, session_id, transport_id, is_idle_screen: false },
                ),
                Some(crate::json::JsonView::Bool(b)) => Some(
                    ApplicationView { app_id, session_id, transport_id, is_idle_screen: b },
                ),
                Some(_) => None,
            },
            _ => None,
        },
        crate::json::JsonView::List(items) => if items.len() == 3 || items.len() == 4 {
            match (items[0].text(), items[1].text(), items[2].text()) {
                (Some(app_id), Some(session_id), Some(transport_id)) => if items.len() == 3 {
                    Some(
                        ApplicationView { app_id, session_id, transport_id, is_idle_screen: false },
                    )
                } else {
                    match items[3] {
                        crate::json::JsonView::Bool(b) => Some(
                            ApplicationView { app_id, session_id, transport_id, is_idle_screen: b },
                        ),
                        _ => None,
                    }
                },
                _ => None,
            }
        } else {
            None
        },
        _ => None,
    }
}

/// The rows that are apps.
pub open spec fn apps_of(rows: Seq<crate::json::JsonView>) -> Seq<ApplicationView>
    decreases rows.len(),
{
    if rows.len() == 0 {
        Seq::empty()
    } else {
        let init = apps_of(rows.drop_last());
        match app_of(rows.last()) {
            Some(a) => init.push(a),
            None => init,
        }
    }
}

/// The apps of a receiver status.
pub open spec fn receiver_apps(payload: crate::json::JsonView) -> Seq<ApplicationView> {
    match payload.field("status"@) {
        Some(status) => match status.field("applications"@) {
            Some(rows) => match rows.list() {
                Some(rows) => apps_of(rows),
                None => Seq::empty(),
            },
            None => Seq::empty(),
        },
        None => Seq::empty(),
    }
}

/// What a player does, by its wire name.
pub open spec fn player_named(name: Seq<char>) -> Option<PlayerState> {
    if name == "PLAYING"@ {
        Some(PlayerState::Playing)
    } else if name == "BUFFERING"@ {
        Some(PlayerState::Buffering)
    } else if name == "PAUSED"@ {
        Some(PlayerState::Paused)
    } else if name == "IDLE"@ {
        Some(PlayerState::Idle)
    } else {
        None
    }
}

/// What a player does, as a receiver writes it: the name, or an object whose
/// only field has that name and no value.
pub open spec fn player_of(value: crate::json::JsonView) -> Option<PlayerState> {
    match value {
        crate::json::JsonView::Text(name) => player_named(name),
        crate::json::JsonView::Object(fields) => if fields.len() == 1
            && fields[0].1 is Null {
            player_named(fields[0].0)
        } else {
            None
        },
        _ => None,
    }
}

/// A media session as a receiver writes it.
pub open spec fn entry_of(row: crate::json::JsonView) -> Option<MediaEntryView> {
    match row.field("playerState"@) {
        None => None,
        Some(v) => match player_of(v) {
            None => None,
            Some(player_state) => Some(
                MediaEntryView {
                    media_session_id: match row.field("mediaSessionId"@) {
                        Some(id) => id.signed(),
                        None => None,
                    },
                    player_state,
                    idle_reason: row.text_field("idleReason"@),
                },
            ),
        },
    }
}

/// The rows that are media sessions.
pub open spec fn entries_of(rows: Seq<crate::json::JsonView>) -> Seq<MediaEntryView>
    decreases rows.len(),
{
    if rows.len() == 0 {
        Seq::empty()
    } else {
        let init = entries_of(rows.drop_last());
        match entry_of(rows.last()) {
            Some(e) => init.push(e),
            None => init,
        }
    }
}

/// The media sessions of a media status.
pub open spec fn media_entries(payload: crate::json::JsonView) -> Seq<MediaEntryView> {
    match payload.field("status"@) {
        Some(status) => match status.list() {
            Some(rows) => entries_of(rows),
            None => Seq::empty(),
        },
        None => Seq::empty(),
    }
}

/// The kinds of refusal to play.
pub open spec fn is_load_error(kind: Seq<char>) -> bool {
    kind == "LOAD_FAILED"@ || kind == "LOAD_CANCELLED"@ || kind == "INVALID_REQUEST"@
}

/// What a payload means in a namespace.
pub open spec fn meaning(namespace: Seq<char>, payload: crate::json::JsonView) -> InboundView {
    match payload.text_field("type"@) {
        None => InboundView::Unknown,
        Some(kind) => if namespace == NS_HEARTBEAT@ && kind == "PONG"@ {
            InboundView::Pong
        } else if namespace == NS_HEARTBEAT@ && kind == "PING"@ {
            InboundView::Ping
        } else if namespace == NS_CONNECTION@ && kind == "CLOSE"@ {
            InboundView::CloseConnection
        } else if namespace == NS_RECEIVER@ && kind == "RECEIVER_STATUS"@ {
            InboundView::ReceiverStatus(receiver_apps(payload))
        } else if namespace == NS_RECEIVER@ && kind == "LAUNCH_ERROR"@ {
            InboundView::LaunchError(payload.text_field("reason"@))
        } else if namespace == NS_MEDIA@ && kind == "MEDIA_STATUS"@ {
            InboundView::MediaStatus(media_entries(payload))
        } else if namespace == NS_MEDIA@ && is_load_error(kind) {
            InboundView::LoadError(kind, payload.text_field("reason"@))
        } else {
            InboundView::Unknown
        },
    }
}

/// What a message means. One whose payload is no JSON means nothing.
pub open spec fn decoded(frame: FrameView) -> InboundView {
    match crate::json::json_of(vstd::utf8::encode_utf8(frame.payload)) {
        Ok(payload) => meaning(frame.namespace, payload),
        Err(_) => InboundView::Unknown,
    }
}

/// An owned copy of a text.
fn owned(t: Option<&str>) -> (r: Option<String>)
    ensures
        crate::text::text_opt(r) == (match t {
            Some(s) => Some(s@),
            None => None,
        }),
{
    match t {
        Some(s) => Some(s.to_owned()),
        None => None,
    }
}

fn decode_application(row: &Json) -> (r: Option<ReceiverApplication>)
    ensures
        match r {
            Some(a) => app_of(row@) == Some(a@),
            None => app_of(row@) is None,
        },
{
    match row {
        Json::Object(_) => match (
            row.text_field("appId"),
            row.text_field("sessionId"),
            row.text_field("transportId"),
        ) {
            (Some(app_id), Some(session_id), Some(transport_id)) => {
                let is_idle_screen = match row.field("isIdleScreen") {
                    None => false,
                    Some(v) => match v {
                        Json::Bool(b) => *b,
                        _ => {
                            return None;
                        },
                    },
                };
                Some(
                    ReceiverApplication {
                        app_id: app_id.to_owned(),
                        session_id: session_id.to_owned(),
                        transport_id: transport_id.to_owned(),
                        is_idle_screen,
                    },
                )
            },
            _ => None,
        },
        Json::List(items) => {
            assert(row@->List_0 =~= crate::json::items_view(items@));
            if items.len() != 3 && items.len() != 4 {
                return None;
            }
            match (items[0].text(), items[1].text(), items[2].text()) {
                (Some(app_id), Some(session_id), Some(transport_id)) => {
                    let is_idle_screen = if items.len() == 3 {
                        false
                    } else {
                        match &items[3] {
                            Json::Bool(b) => *b,
                            _ => {
                                return None;
                            },
                        }
                    };
                    Some(
                        ReceiverApplication {
                            app_id: app_id.to_owned(),
                            session_id: session_id.to_owned(),
                            transport_id: transport_id.to_owned(),
                            is_idle_screen,
                        },
                    )
                },
                _ => None,
            }
        },
        _ => None,
    }
}

/// The apps of a receiver status; rows that are none are skipped.
fn decode_receiver_status(payload: &Json) -> (r: ReceiverStatusInfo)
    ensures
        app_views(r.applications@) == receiver_apps(payload@),
{
    let mut applications: Vec<ReceiverApplication> = Vec::new();
    assert(app_views(applications@) =~= Seq::<ApplicationView>::empty());
    if let Some(status) = payload.field("status") {
        if let Some(found) = status.field("applications") {
            if let Some(rows) = found.list() {
                let ghost all = crate::json::items_view(rows@);
                let mut i: usize = 0;
                assert(all.take(0) =~= Seq::<crate::json::JsonView>::empty());
                while i < rows.len()
                    invariant
                        i <= rows.len(),
                        all == crate::json::items_view(rows@),
                        app_views(applications@) == apps_of(all.take(i as int)),
                    decreases rows.len() - i,
                {
                    let ghost before = applications@;
                    proof {
                        assert(all.take(i + 1).drop_last() =~= all.take(i as int));
                        assert(all.take(i + 1).last() == rows@[i as int]@);
                    }
                    if let Some(a) = decode_application(&rows[i]) {
                        applications.push(a);
                        assert(app_views(applications@) =~= app_views(before).push(a@));
                    }
                    i += 1;
                }
                assert(all.take(i as int) =~= all);
            }
        }
    }
    ReceiverStatusInfo { applications }
}

fn decode_player_name(name: &str) -> (r: Option<PlayerState>)
    ensures
        r == player_named(name@),
{
    if str_eq(name, "PLAYING") {
        Some(PlayerState::Playing)
    } else if str_eq(name, "BUFFERING") {
        Some(PlayerState::Buffering)
    } else if str_eq(name, "PAUSED") {
        Some(PlayerState::Paused)
    } else if str_eq(name, "IDLE") {
        Some(PlayerState::Idle)
    } else {
        None
    }
}

fn decode_player_state(value: &Json) -> (r: Option<PlayerState>)
    ensures
        r == player_of(value@),
{
    match value {
        Json::Text(name) => decode_player_name(name.as_str()),
        Json::Object(fields) => {
            assert(value@->Object_0 =~= crate::json::fields_view(fields@));
            if fields.len() == 1 {
                match &fields[0].1 {
                    Json::Null => decode_player_name(fields[0].0.as_str()),
                    _ => None,
                }
            } else {
                None
            }
        },
        _ => None,
    }
}

fn decode_media_entry(row: &Json) -> (r: Option<MediaStatusEntry>)
    ensures
        match r {
            Some(e) => entry_of(row@) == Some(e@),
            None => entry_of(row@) is None,
        },
{
    match row.field("playerState") {
        None => None,
        Some(v) => match decode_player_state(v) {
            None => None,
            Some(player_state) => {
                let media_session_id = match row.field("mediaSessionId") {
                    Some(id) => id.signed(),
                    None => None,
                };
                Some(
                    MediaStatusEntry {
                        media_session_id,
                        player_state,
                        idle_reason: owned(row.text_field("idleReason")),
                    },
                )
            },
        },
    }
}

/// The media sessions of a media status; rows that are none are skipped.
fn decode_media_status(payload: &Json) -> (r: Vec<MediaStatusEntry>)
    ensures
        entry_views(r@) == media_entries(payload@),
{
    let mut entries: Vec<MediaStatusEntry> = Vec::new();
    assert(entry_views(entries@) =~= Seq::<MediaEntryView>::empty());
    if let Some(status) = payload.field("status") {
        if let Some(rows) = status.list() {
            let ghost all = crate::json::items_view(rows@);
            let mut i: usize = 0;
            assert(all.take(0) =~= Seq::<crate::json::JsonView>::empty());
            while i < rows.len()
                invariant
                    i <= rows.len(),
                    all == crate::json::items_view(rows@),
                    entry_views(entries@) == entries_of(all.take(i as int)),
                decreases rows.len() - i,
            {
                let ghost before = entries@;
                proof {
                    assert(all.take(i + 1).drop_last() =~= all.take(i as int));
                    assert(all.take(i + 1).last() == rows@[i as int]@);
                }
                if let Some(e) = decode_media_entry(&rows[i]) {
                    entries.push(e);
                    assert(entry_views(entries@) =~= entry_views(before).push(e@));
                }
                i += 1;
            }
            assert(all.take(i as int) =~= all);
        }
    }
    entries
}

/// What a payload means in a namespace.
pub fn decode_payload(namespace: &str, payload: &Json) -> (r: InboundMessage)
    ensures
        r@ == meaning(namespace@, payload@),
{
    let kind = match payload.text_field("type") {
        Some(kind) => kind,
        None => {
            return InboundMessage::Unknown;
        },
    };
    if str_eq(namespace, NS_HEARTBEAT) && str_eq(kind, "PONG") {
        InboundMessage::Pong
    } else if str_eq(namespace, NS_HEARTBEAT) && str_eq(kind, "PING") {
        InboundMessage::Ping
    } else if str_eq(namespace, NS_CONNECTION) && str_eq(kind, "CLOSE") {
        InboundMessage::CloseConnection
    } else if str_eq(namespace, NS_RECEIVER) && str_eq(kind, "RECEIVER_STATUS") {
        InboundMessage::ReceiverStatus(decode_receiver_status(payload))
    } else if str_eq(namespace, NS_RECEIVER) && str_eq(kind, "LAUNCH_ERROR") {
        InboundMessage::LaunchError { reason: owned(payload.text_field("reason")) }
    } else if str_eq(namespace, NS_MEDIA) && str_eq(kind, "MEDIA_STATUS") {
        InboundMessage::MediaStatus(decode_media_status(payload))
    } else if str_eq(namespace, NS_MEDIA) && (str_eq(kind, "LOAD_FAILED") || str_eq(
        kind,
        "LOAD_CANCELLED",
    ) || str_eq(kind, "INVALID_REQUEST")) {
        InboundMessage::LoadError {
            kind: kind.to_owned(),
            reason: owned(payload.text_field("reason")),
        }
    } else {
        InboundMessage::Unknown
    }
}

/// What a message means.
pub fn decode(frame: &CastFrame) -> (r: InboundMessage)
    ensures
        r@ == decoded(frame@),
{
    match parse_json(frame.payload.as_str().as_bytes()) {
        Ok(payload) => decode_payload(frame.namespace.as_str(), &payload),
        Err(_) => InboundMessage::Unknown,
    }
}

// ---- Laws --------------------------------------------------------------------

/// A message means something only in its own namespace.
pub proof fn law_namespaces_do_not_mix(payload: crate::json::JsonView)
    ensures
        ({
            let m = meaning(NS_HEARTBEAT@, payload);
            m is Pong || m is Ping || m is Unknown
        }),
        ({
            let m = meaning(NS_CONNECTION@, payload);
            m is CloseConnection || m is Unknown
        }),
        ({
            let m = meaning(NS_RECEIVER@, payload);
            m is ReceiverStatus || m is LaunchError || m is Unknown
        }),
        ({
            let m = meaning(NS_MEDIA@, payload);
            m is MediaStatus || m is LoadError || m is Unknown
        }),
{
    lemma_namespaces_differ();
}

/// The four namespaces are four.
pub proof fn lemma_namespaces_differ()
    ensures
        NS_CONNECTION@ != NS_HEARTBEAT@,
        NS_CONNECTION@ != NS_RECEIVER@,
        NS_CONNECTION@ != NS_MEDIA@,
        NS_HEARTBEAT@ != NS_RECEIVER@,
        NS_HEARTBEAT@ != NS_MEDIA@,
        NS_RECEIVER@ != NS_MEDIA@,
{
    reveal_strlit("urn:x-cast:com.google.cast.tp.connection");
    reveal_strlit("urn:x-cast:com.google.cast.tp.heartbeat");
    reveal_strlit("urn:x-cast:com.google.cast.receiver");
    reveal_strlit("urn:x-cast:com.google.cast.media");
    assert(NS_CONNECTION@.len() != NS_HEARTBEAT@.len());
    assert(NS_RECEIVER@.len() != NS_MEDIA@.len());
}

/// A row that this driver cannot read hides no other row.
pub proof fn law_unreadable_rows_are_skipped(
    rows: Seq<crate::json::JsonView>,
    bad: crate::json::JsonView,
)
    ensures
        app_of(bad) is None ==> apps_of(rows.push(bad)) == apps_of(rows),
        entry_of(bad) is None ==> entries_of(rows.push(bad)) == entries_of(rows),
{
    assert(rows.push(bad).drop_last() =~= rows);
}

/// Whether a frame goes from this sender to `destination` and carries `payload` under
/// a namespace.
pub open spec fn sends(
    f: FrameView,
    namespace: Seq<char>,
    destination: Seq<char>,
    payload: crate::json::JsonView,
) -> bool {
    &&& f.namespace == namespace
    &&& f.source == "sender-0"@
    &&& f.destination == destination
    &&& f.payload == crate::json::json_text_of(payload)
}

/// The frames that open, keep and close a conversation say so, to whom they are for.
pub proof fn law_conversation_frames(destination: Seq<char>)
    ensures
        exists|p: crate::json::JsonView|
            #[trigger] sends(
                connect_view(destination),
                "urn:x-cast:com.google.cast.tp.connection"@,
                destination,
                p,
            ) && p.text_field("type"@) == Some("CONNECT"@),
        exists|p: crate::json::JsonView|
            #[trigger] sends(
                close_view(destination),
                "urn:x-cast:com.google.cast.tp.connection"@,
                destination,
                p,
            ) && p.text_field("type"@) == Some("CLOSE"@),
        exists|p: crate::json::JsonView|
            #[trigger] sends(
                ping_view(),
                "urn:x-cast:com.google.cast.tp.heartbeat"@,
                "receiver-0"@,
                p,
            ) && p.text_field("type"@) == Some("PING"@),
        exists|p: crate::json::JsonView|
            #[trigger] sends(
                pong_view(),
                "urn:x-cast:com.google.cast.tp.heartbeat"@,
                "receiver-0"@,
                p,
            ) && p.text_field("type"@) == Some("PONG"@),
{
    reveal_with_fuel(crate::json::field_of, 3);
    assert(sends(
        connect_view(destination),
        "urn:x-cast:com.google.cast.tp.connection"@,
        destination,
        typed("CONNECT"@),
    ));
    assert(sends(
        close_view(destination),
        "urn:x-cast:com.google.cast.tp.connection"@,
        destination,
        typed("CLOSE"@),
    ));
    assert(sends(
        ping_view(),
        "urn:x-cast:com.google.cast.tp.heartbeat"@,
        "receiver-0"@,
        typed("PING"@),
    ));
    assert(sends(
        pong_view(),
        "urn:x-cast:com.google.cast.tp.heartbeat"@,
        "receiver-0"@,
        typed("PONG"@),
    ));
}

/// What is asked of the platform names what it is about: the app to launch, the session
/// to stop, the volume to set; and each carries its request id.
pub proof fn law_platform_requests(
    request_id: u32,
    app_id: Seq<char>,
    session_id: Seq<char>,
    percent: u8,
)
    ensures
        exists|p: crate::json::JsonView|
            #[trigger] sends(
                launch_view(request_id, app_id),
                "urn:x-cast:com.google.cast.receiver"@,
                "receiver-0"@,
                p,
            ) && p.text_field("type"@) == Some("LAUNCH"@) && p.field("requestId"@) == Some(
                crate::json::JsonView::Unsigned(request_id as u64),
            ) && p.text_field("appId"@) == Some(app_id),
        exists|p: crate::json::JsonView|
            #[trigger] sends(
                get_status_view(request_id),
                "urn:x-cast:com.google.cast.receiver"@,
                "receiver-0"@,
                p,
            ) && p.text_field("type"@) == Some("GET_STATUS"@) && p.field("requestId"@) == Some(
                crate::json::JsonView::Unsigned(request_id as u64),
            ),
        exists|p: crate::json::JsonView|
            #[trigger] sends(
                stop_view(request_id, session_id),
                "urn:x-cast:com.google.cast.receiver"@,
                "receiver-0"@,
                p,
            ) && p.text_field("type"@) == Some("STOP"@) && p.field("requestId"@) == Some(
                crate::json::JsonView::Unsigned(request_id as u64),
            ) && p.text_field("sessionId"@) == Some(session_id),
        exists|p: crate::json::JsonView|
            #[trigger] sends(
                set_volume_view(request_id, percent),
                "urn:x-cast:com.google.cast.receiver"@,
                "receiver-0"@,
                p,
            ) && p.text_field("type"@) == Some("SET_VOLUME"@) && p.field("requestId"@) == Some(
                crate::json::JsonView::Unsigned(request_id as u64),
            ) && (p.field("volume"@) matches Some(v) && v.field("level"@) == Some(
                crate::json::JsonView::Number(level_text(percent)),
            )),
{
    reveal_with_fuel(crate::json::field_of, 5);
    reveal_strlit("type");
    reveal_strlit("requestId");
    reveal_strlit("appId");
    reveal_strlit("sessionId");
    reveal_strlit("volume");
    assert("type"@.len() == 4 && "requestId"@.len() == 9 && "appId"@.len() == 5 && "volume"@.len()
        == 6);
    assert("sessionId"@.len() == 9 && "sessionId"@[0] == 's' && "requestId"@[0] == 'r');
    assert(sends(
        launch_view(request_id, app_id),
        "urn:x-cast:com.google.cast.receiver"@,
        "receiver-0"@,
        crate::json::JsonView::Object(
            request("LAUNCH"@, request_id).push(("appId"@, crate::json::JsonView::Text(app_id))),
        ),
    ));
    assert(sends(
        get_status_view(request_id),
        "urn:x-cast:com.google.cast.receiver"@,
        "receiver-0"@,
        crate::json::JsonView::Object(request("GET_STATUS"@, request_id)),
    ));
    assert(sends(
        stop_view(request_id, session_id),
        "urn:x-cast:com.google.cast.receiver"@,
        "receiver-0"@,
        crate::json::JsonView::Object(
            request("STOP"@, request_id).push(
                ("sessionId"@, crate::json::JsonView::Text(session_id)),
            ),
        ),
    ));
    assert(sends(
        set_volume_view(request_id, percent),
        "urn:x-cast:com.google.cast.receiver"@,
        "receiver-0"@,
        crate::json::JsonView::Object(
            request("SET_VOLUME"@, request_id).push(
                (
                    "volume"@,
                    crate::json::JsonView::Object(
                        seq![("level"@, crate::json::JsonView::Number(level_text(percent)))],
                    ),
                ),
            ),
        ),
    ));
}

/// A load goes to the app, starts at once, and names the live stream that is to be
/// played with its container.
pub proof fn law_load_names_the_stream(
    request_id: u32,
    transport_id: Seq<char>,
    media: CastMediaTarget,
)
    ensures
        exists|p: crate::json::JsonView|
            #[trigger] sends(
                load_view(request_id, transport_id, media),
                "urn:x-cast:com.google.cast.media"@,
                transport_id,
                p,
            ) && p.text_field("type"@) == Some("LOAD"@) && p.field("requestId"@) == Some(
                crate::json::JsonView::Unsigned(request_id as u64),
            ) && p.field("autoplay"@) == Some(crate::json::JsonView::Bool(true)) && p.field(
                "media"@,
            ) == Some(media_object(media)),
        media_object(media).text_field("contentId"@) == Some(media.url@),
        media_object(media).text_field("contentType"@) == Some("application/vnd.apple.mpegurl"@),
        media_object(media).text_field("streamType"@) == Some("LIVE"@),
        media_object(media).text_field("hlsVideoSegmentFormat"@) == Some(
            crate::devices::cast::media::format_token(media.format),
        ),
{
    reveal_with_fuel(crate::json::field_of, 6);
    reveal_strlit("type");
    reveal_strlit("requestId");
    reveal_strlit("autoplay");
    reveal_strlit("media");
    reveal_strlit("contentId");
    reveal_strlit("contentType");
    reveal_strlit("streamType");
    reveal_strlit("hlsVideoSegmentFormat");
    assert("type"@.len() == 4 && "requestId"@.len() == 9 && "autoplay"@.len() == 8 && "media"@.len()
        == 5);
    assert("contentId"@.len() == 9 && "contentType"@.len() == 11 && "streamType"@.len() == 10
        && "hlsVideoSegmentFormat"@.len() == 21);
    assert(sends(
        load_view(request_id, transport_id, media),
        "urn:x-cast:com.google.cast.media"@,
        transport_id,
        crate::json::JsonView::Object(
            request("LOAD"@, request_id).push(
                ("autoplay"@, crate::json::JsonView::Bool(true)),
            ).push(("media"@, media_object(media))),
        ),
    ));
}

/// A volume is written in hundredths: the digits behind the point are those of the
/// percentage, and full volume, or anything beyond it, is one.
pub proof fn law_volume_is_in_hundredths(percent: u8)
    ensures
        percent >= 100 ==> level_text(percent) == "1.0"@,
        percent < 100 ==> {
            let t = level_text(percent);
            let d = t.skip(2);
            &&& t.take(2) == "0."@
            &&& crate::text::all_digits(d)
            &&& d.len() == 1 || d.len() == 2
            &&& d.len() == 1 ==> crate::text::digits_value(d) * 10 == percent
            &&& d.len() == 2 ==> crate::text::digits_value(d) == percent
        },
{
    reveal_strlit("1.0");
    reveal_strlit("0.0");
    reveal_strlit("0.");
    if percent < 100 {
        let p = percent as nat;
        let t = level_text(percent);
        let d = t.skip(2);
        assert(t.take(2) =~= "0."@);
        reveal_with_fuel(crate::text::decimal, 3);
        reveal_with_fuel(crate::text::digits_value, 4);
        crate::text::lemma_decimal(p);
        crate::text::lemma_decimal(p / 10);
        if 0 < p < 10 {
            assert(d =~= seq!['0'] + crate::text::decimal(p));
            assert(d.drop_last() =~= seq!['0']);
            assert(seq!['0'].drop_last() =~= Seq::<char>::empty());
            assert(crate::text::digits_value(seq!['0']) == 0);
            assert(d.last() == crate::text::decimal(p)[0]);
            assert(crate::text::decimal(p).drop_last() =~= Seq::<char>::empty());
        } else if p % 10 == 0 {
            assert(d =~= crate::text::decimal(p / 10));
        } else {
            assert(d =~= crate::text::decimal(p));
        }
    }
}

/// What a receiver says is understood by its namespace and its type.
pub proof fn law_messages_are_understood(
    namespace: Seq<char>,
    payload: crate::json::JsonView,
    kind: Seq<char>,
)
    requires
        payload.text_field("type"@) == Some(kind),
    ensures
        namespace == "urn:x-cast:com.google.cast.tp.heartbeat"@ && kind == "PING"@ ==> meaning(
            namespace,
            payload,
        ) == InboundView::Ping,
        namespace == "urn:x-cast:com.google.cast.tp.heartbeat"@ && kind == "PONG"@ ==> meaning(
            namespace,
            payload,
        ) == InboundView::Pong,
        namespace == "urn:x-cast:com.google.cast.tp.connection"@ && kind == "CLOSE"@ ==> meaning(
            namespace,
            payload,
        ) == InboundView::CloseConnection,
        namespace == "urn:x-cast:com.google.cast.receiver"@ && kind == "RECEIVER_STATUS"@
            ==> meaning(namespace, payload) == InboundView::ReceiverStatus(receiver_apps(payload)),
        namespace == "urn:x-cast:com.google.cast.receiver"@ && kind == "LAUNCH_ERROR"@ ==> meaning(
            namespace,
            payload,
        ) == InboundView::LaunchError(payload.text_field("reason"@)),
        namespace == "urn:x-cast:com.google.cast.media"@ && kind == "MEDIA_STATUS"@ ==> meaning(
            namespace,
            payload,
        ) == InboundView::MediaStatus(media_entries(payload)),
        namespace == "urn:x-cast:com.google.cast.media"@ && (kind == "LOAD_FAILED"@ || kind
            == "LOAD_CANCELLED"@ || kind == "INVALID_REQUEST"@) ==> meaning(namespace, payload)
            == InboundView::LoadError(kind, payload.text_field("reason"@)),
        kind != "PING"@ && kind != "PONG"@ && kind != "CLOSE"@ && kind != "RECEIVER_STATUS"@ && kind
            != "LAUNCH_ERROR"@ && kind != "MEDIA_STATUS"@ && kind != "LOAD_FAILED"@ && kind
            != "LOAD_CANCELLED"@ && kind != "INVALID_REQUEST"@ ==> meaning(namespace, payload)
            == InboundView::Unknown,
{
    reveal_strlit("PING");
    reveal_strlit("PONG");
    reveal_strlit("CLOSE");
    reveal_strlit("RECEIVER_STATUS");
    reveal_strlit("LAUNCH_ERROR");
    reveal_strlit("MEDIA_STATUS");
    reveal_strlit("LOAD_FAILED");
    reveal_strlit("LOAD_CANCELLED");
    reveal_strlit("INVALID_REQUEST");
    assert("PING"@.len() == 4 && "PONG"@.len() == 4 && "CLOSE"@.len() == 5
        && "RECEIVER_STATUS"@.len() == 15 && "LAUNCH_ERROR"@.len() == 12 && "MEDIA_STATUS"@.len()
        == 12 && "LOAD_FAILED"@.len() == 11 && "LOAD_CANCELLED"@.len() == 14
        && "INVALID_REQUEST"@.len() == 15);
    assert("PING"@[1] == 'I' && "PONG"@[1] == 'O');
    assert("LAUNCH_ERROR"@[0] == 'L' && "MEDIA_STATUS"@[0] == 'M');
    assert("RECEIVER_STATUS"@[0] == 'R' && "INVALID_REQUEST"@[0] == 'I');
}

/// An app is read off its row: ids as they stand there, and whether it is the idle
/// screen, which it is not unless the row says so.
pub proof fn law_application_is_read(
    row: crate::json::JsonView,
    app: Seq<char>,
    session: Seq<char>,
    transport: Seq<char>,
    idle: bool,
)
    requires
        row is Object,
        row.text_field("appId"@) == Some(app),
        row.text_field("sessionId"@) == Some(session),
        row.text_field("transportId"@) == Some(transport),
    ensures
        row.field("isIdleScreen"@) is None ==> app_of(row) == Some(
            (ApplicationView {
                app_id: app,
                session_id: session,
                transport_id: transport,
                is_idle_screen: false,
            }),
        ),
        row.field("isIdleScreen"@) == Some(crate::json::JsonView::Bool(idle)) ==> app_of(row)
            == Some(
            (ApplicationView {
                app_id: app,
                session_id: session,
                transport_id: transport,
                is_idle_screen: idle,
            }),
        ),
{
}

/// A player's state is read off its row by name, with the session that it belongs to
/// and the reason it gives.
pub proof fn law_media_entry_is_read(row: crate::json::JsonView, name: Seq<char>)
    requires
        row.field("playerState"@) == Some(crate::json::JsonView::Text(name)),
    ensures
        name == "PLAYING"@ ==> (entry_of(row) matches Some(e) && e.player_state
            == PlayerState::Playing),
        name == "BUFFERING"@ ==> (entry_of(row) matches Some(e) && e.player_state
            == PlayerState::Buffering),
        name == "PAUSED"@ ==> (entry_of(row) matches Some(e) && e.player_state
            == PlayerState::Paused),
        name == "IDLE"@ ==> (entry_of(row) matches Some(e) && e.player_state
            == PlayerState::Idle),
        name != "PLAYING"@ && name != "BUFFERING"@ && name != "PAUSED"@ && name != "IDLE"@
            ==> entry_of(row) is None,
        entry_of(row) matches Some(e) ==> e.idle_reason == row.text_field("idleReason"@)
            && e.media_session_id == (match row.field("mediaSessionId"@) {
            Some(id) => id.signed(),
            None => None,
        }),
{
    reveal_strlit("PLAYING");
    reveal_strlit("BUFFERING");
    reveal_strlit("PAUSED");
    reveal_strlit("IDLE");
    assert("PLAYING"@.len() == 7 && "BUFFERING"@.len() == 9 && "PAUSED"@.len() == 6
        && "IDLE"@.len() == 4);
}

/// What a player does is shown under its own word.
pub proof fn law_player_states_are_named(p: PlayerState)
    ensures
        p == PlayerState::Playing ==> player_token(p) == "playing"@,
        p == PlayerState::Buffering ==> player_token(p) == "buffering"@,
        p == PlayerState::Paused ==> player_token(p) == "paused"@,
        p == PlayerState::Idle ==> player_token(p) == "idle"@,
{
}

/// The apps of a receiver and the players of an app are read off the rows of their
/// status, in order, each row by itself.
pub proof fn law_status_rows_are_read(
    payload: crate::json::JsonView,
    status: crate::json::JsonView,
    rows: Seq<crate::json::JsonView>,
    row: crate::json::JsonView,
)
    requires
        payload.field("status"@) == Some(status),
    ensures
        status.field("applications"@) == Some(crate::json::JsonView::List(rows)) ==> receiver_apps(
            payload,
        ) == apps_of(rows),
        status.field("applications"@) is None ==> receiver_apps(payload).len() == 0,
        status == crate::json::JsonView::List(rows) ==> media_entries(payload) == entries_of(rows),
        apps_of(Seq::empty()).len() == 0,
        entries_of(Seq::empty()).len() == 0,
        app_of(row) is Some ==> apps_of(rows.push(row)) == apps_of(rows).push(app_of(row)->0),
        app_of(row) is None ==> apps_of(rows.push(row)) == apps_of(rows),
        entry_of(row) is Some ==> entries_of(rows.push(row)) == entries_of(rows).push(
            entry_of(row)->0,
        ),
        entry_of(row) is None ==> entries_of(rows.push(row)) == entries_of(rows),
{
    assert(rows.push(row).drop_last() =~= rows);
}

/// A frame is understood by the document that it carries; one that carries none means
/// nothing.
pub proof fn law_frame_means_its_document(frame: FrameView)
    ensures
        crate::json::json_of(vstd::utf8::encode_utf8(frame.payload)) matches Ok(p) ==> decoded(frame)
            == meaning(frame.namespace, p),
        crate::json::json_of(vstd::utf8::encode_utf8(frame.payload)) is Err ==> decoded(frame)
            == InboundView::Unknown,
{
}

} // verus!
